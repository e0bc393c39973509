//! Channels, and which transports a deployment may bind them to.
//!
//! The permitted set is what the engine bundles, narrowed by an operator's allow-list, plus the two
//! internal ways of routing that never touch a network. A deployment whose channels declare
//! anything else is refused.

use vstd::prelude::*;

use crate::keyed;
use crate::keyed::{TextMap, TextSet};
use crate::sources;
use crate::text;

verus! {

/// The environment variable that narrows the permitted transports.
pub const ALLOWED_TRANSPORTS_ENV: &'static str = "SUTRA_ALLOWED_TRANSPORTS";

/// Routing inside the process.
pub const LOCAL_TRANSPORT: &'static str = "local";

/// Parking a delivery for a worker to fetch.
pub const PULL_TRANSPORT: &'static str = "pull";

/// The authoring identity of a deployment.
pub struct Namespace {
    pub tenant: String,
    pub module: String,
    pub version: String,
}

/// The contents of a [`Namespace`].
pub struct NamespaceView {
    pub tenant: Seq<char>,
    pub module: Seq<char>,
    pub version: Seq<char>,
}

impl View for Namespace {
    type V = NamespaceView;

    open spec fn view(&self) -> NamespaceView {
        NamespaceView {
            tenant: self.tenant@,
            module: self.module@,
            version: self.version@,
        }
    }
}

impl NamespaceView {
    /// The key of a module version: `<tenant>/<module>/<version>`.
    pub open spec fn module_key(self) -> Seq<char> {
        self.tenant + "/"@ + self.module + "/"@ + self.version
    }
}

impl Namespace {
    /// The key of this module version.
    pub fn module_key(&self) -> (r: String)
        ensures
            r@ == self@.module_key(),
    {
        text::text5(&self.tenant, "/", &self.module, "/", &self.version)
    }

    /// The same namespace again.
    pub fn duplicate(&self) -> (r: Namespace)
        ensures
            r@ == self@,
    {
        Namespace {
            tenant: self.tenant.clone(),
            module: self.module.clone(),
            version: self.version.clone(),
        }
    }
}

/// A declared channel.
pub struct ChannelDefinition {
    pub channel_name: String,
    pub namespace: Namespace,
    /// The deployment the channel is bound to.
    pub deployment: String,
    pub outbound: bool,
    pub transport: Option<String>,
    pub bind_spec: Option<String>,
    pub auth_scheme: Option<String>,
    pub cloud_events_mode: Option<String>,
    /// Whether a delivery is to be acknowledged once its instance completes.
    pub on_complete_ack: bool,
    pub properties: TextMap<String>,
}

/// The contents of a [`ChannelDefinition`].
pub struct ChannelView {
    pub channel_name: Seq<char>,
    pub namespace: NamespaceView,
    pub deployment: Seq<char>,
    pub outbound: bool,
    pub transport: Option<Seq<char>>,
    pub bind_spec: Option<Seq<char>>,
    pub auth_scheme: Option<Seq<char>>,
    pub cloud_events_mode: Option<Seq<char>>,
    pub on_complete_ack: bool,
    pub properties: Seq<(Seq<char>, Seq<char>)>,
}

impl View for ChannelDefinition {
    type V = ChannelView;

    open spec fn view(&self) -> ChannelView {
        ChannelView {
            channel_name: self.channel_name@,
            namespace: self.namespace@,
            deployment: self.deployment@,
            outbound: self.outbound,
            transport: sources::opt(self.transport),
            bind_spec: sources::opt(self.bind_spec),
            auth_scheme: sources::opt(self.auth_scheme),
            cloud_events_mode: sources::opt(self.cloud_events_mode),
            on_complete_ack: self.on_complete_ack,
            properties: self.properties@,
        }
    }
}

/// What a row of channels holds.
pub open spec fn channels(v: Seq<ChannelDefinition>) -> Seq<ChannelView> {
    v.map_values(|d: ChannelDefinition| d@)
}

// ---- the permitted transports ------------------------------------------------------------------

/// Whether a comma-separated allow-list names a transport.
pub open spec fn listed(list: Seq<char>, name: Seq<char>) -> bool {
    name.len() > 0 && exists|i: int|
        0 <= i < text::pieces(list, ',').len() && text::trimmed(
            #[trigger] text::pieces(list, ',')[i],
        ) == name
}

/// The bundled transports that an allow-list leaves; a blank list, or none, leaves them all.
pub open spec fn narrowed(bundled: Seq<Seq<char>>, list: Option<Seq<char>>) -> Seq<Seq<char>>
    decreases bundled.len(),
{
    if bundled.len() == 0 {
        Seq::empty()
    } else {
        let rest = narrowed(bundled.drop_last(), list);
        let stays = match list {
            Some(l) => text::trimmed(l).len() == 0 || listed(l, bundled.last()),
            None => true,
        };
        if stays {
            rest.push(bundled.last())
        } else {
            rest
        }
    }
}

/// The permitted transports in their order.
pub open spec fn permitted(bundled: Seq<Seq<char>>, list: Option<Seq<char>>) -> Seq<Seq<char>> {
    keyed::added(
        keyed::added(keyed::collected(narrowed(bundled, list)), LOCAL_TRANSPORT@),
        PULL_TRANSPORT@,
    )
}

proof fn narrowed_contains(bundled: Seq<Seq<char>>, list: Option<Seq<char>>, k: Seq<char>)
    ensures
        narrowed(bundled, list).contains(k) <==> bundled.contains(k) && (match list {
            Some(l) => text::trimmed(l).len() == 0 || listed(l, k),
            None => true,
        }),
    decreases bundled.len(),
{
    if bundled.len() > 0 {
        let rest = bundled.drop_last();
        narrowed_contains(rest, list, k);
        assert(bundled =~= rest.push(bundled.last()));
        text::push_contains(rest, bundled.last(), k);
        text::push_contains(narrowed(rest, list), bundled.last(), k);
    }
}

/// A transport is permitted exactly when it is internal to the engine, or it is bundled and the
/// allow-list, where there is one, names it.
pub proof fn permitted_is_bundled_and_listed_or_internal(
    bundled: Seq<Seq<char>>,
    list: Option<Seq<char>>,
    k: Seq<char>,
)
    ensures
        permitted(bundled, list).contains(k) <==> k == LOCAL_TRANSPORT@ || k == PULL_TRANSPORT@ || (
        bundled.contains(k) && (match list {
            Some(l) => text::trimmed(l).len() == 0 || listed(l, k),
            None => true,
        })),
{
    let base = keyed::collected(narrowed(bundled, list));
    narrowed_contains(bundled, list, k);
    keyed::collected_contains(narrowed(bundled, list), k);
    keyed::added_contains(base, LOCAL_TRANSPORT@, k);
    keyed::added_contains(keyed::added(base, LOCAL_TRANSPORT@), PULL_TRANSPORT@, k);
}

/// Whether an allow-list names a transport.
fn is_listed(list: &str, name: &str) -> (r: bool)
    ensures
        r == listed(list@, name@),
{
    if name.is_empty() {
        return false;
    }
    let parts = text::split(list, ',');
    let ghost all = text::pieces(list@, ',');
    let mut i: usize = 0;
    while i < parts.len()
        invariant
            i <= parts.len(),
            name@.len() > 0,
            all == text::pieces(list@, ','),
            text::texts(parts@) == all,
            forall|k: int| 0 <= k < i ==> text::trimmed(#[trigger] all[k]) != name@,
        decreases parts.len() - i,
    {
        assert(all[i as int] == parts@[i as int]@);
        if text::same(&text::trim(&parts[i]), name) {
            assert(text::trimmed(all[i as int]) == name@);
            return true;
        }
        i = i + 1;
    }
    assert(parts@.len() == all.len());
    false
}

/// The transports that a deployment may bind to, from those that are bundled and the value of the
/// allow-list.
pub fn allowed_transports(bundled: &Vec<String>, list: &Option<String>) -> (r: TextSet)
    ensures
        r@ == permitted(text::texts(bundled@), sources::opt(*list)),
{
    let mut out = TextSet::new();
    let ghost all = text::texts(bundled@);
    let ghost l = sources::opt(*list);
    let mut i: usize = 0;
    assert(narrowed(all.take(0), l) =~= Seq::empty());
    while i < bundled.len()
        invariant
            i <= bundled.len(),
            all == text::texts(bundled@),
            l == sources::opt(*list),
            out@ == keyed::collected(narrowed(all.take(i as int), l)),
        decreases bundled.len() - i,
    {
        let ghost next = all.take(i + 1);
        let name = &bundled[i];
        proof {
            assert(next.drop_last() =~= all.take(i as int));
            assert(next.last() == name@);
            let rest = narrowed(all.take(i as int), l);
            assert(rest.push(name@).drop_last() =~= rest);
        }
        let stays = match list {
            Some(v) => text::trim(v).as_str().is_empty() || is_listed(v, name),
            None => true,
        };
        if stays {
            out.insert(name.clone());
        }
        i = i + 1;
    }
    assert(all.take(bundled.len() as int) =~= all);
    out.insert(LOCAL_TRANSPORT.to_owned());
    out.insert(PULL_TRANSPORT.to_owned());
    out
}

/// The transport that a channel declares, where it is not blank.
pub open spec fn declared(def: ChannelView) -> Option<Seq<char>> {
    match def.transport {
        Some(t) => if text::trimmed(t).len() > 0 {
            Some(text::trimmed(t))
        } else {
            None
        },
        None => None,
    }
}

/// Whether a channel's declared transport is outside the permitted ones. A channel that declares
/// none is not this rule's concern, and neither is internal routing.
pub open spec fn forbidden(def: ChannelView, allowed: Seq<Seq<char>>) -> bool {
    match declared(def) {
        Some(t) => t != LOCAL_TRANSPORT@ && t != PULL_TRANSPORT@ && !allowed.contains(t),
        None => false,
    }
}

/// Why a channel's transport is refused.
pub open spec fn refusal(def: ChannelView, allowed: Seq<Seq<char>>, dep: Seq<char>) -> Seq<char> {
    "channel '"@ + def.channel_name + "' of deployment "@ + dep + " declares transport '"@
        + declared(def)->0
        + "', which is not permitted in this engine (permitted transports: ["@ + text::joined(
        allowed,
        ", "@,
    )
        + "]). This engine bundles/allows only those transports (SUTRA_ALLOWED_TRANSPORTS + the linked transport crates); a hardened build rejects any other protocol."@
}

/// The refusal of the first channel whose transport is not permitted.
pub open spec fn first_refusal(
    defs: Seq<ChannelView>,
    allowed: Seq<Seq<char>>,
    dep: Seq<char>,
) -> Option<Seq<char>>
    decreases defs.len(),
{
    if defs.len() == 0 {
        None
    } else if forbidden(defs[0], allowed) {
        Some(refusal(defs[0], allowed, dep))
    } else {
        first_refusal(defs.drop_first(), allowed, dep)
    }
}

/// A deployment whose channels are all internal is never refused, whatever is permitted.
pub proof fn internal_channels_always_pass(
    defs: Seq<ChannelView>,
    allowed: Seq<Seq<char>>,
    dep: Seq<char>,
)
    requires
        forall|i: int|
            0 <= i < defs.len() ==> (#[trigger] declared(defs[i]) == Some(LOCAL_TRANSPORT@)
                || declared(defs[i]) == Some(PULL_TRANSPORT@)),
    ensures
        first_refusal(defs, allowed, dep) is None,
    decreases defs.len(),
{
    if defs.len() > 0 {
        assert(declared(defs[0]) == Some(LOCAL_TRANSPORT@) || declared(defs[0]) == Some(
            PULL_TRANSPORT@,
        ));
        let rest = defs.drop_first();
        assert forall|i: int| 0 <= i < rest.len() implies (#[trigger] declared(rest[i]) == Some(
            LOCAL_TRANSPORT@,
        ) || declared(rest[i]) == Some(PULL_TRANSPORT@)) by {
            assert(rest[i] == defs[i + 1]);
            assert(declared(defs[i + 1]) == declared(rest[i]));
        }
        internal_channels_always_pass(rest, allowed, dep);
    }
}

/// Refuse a deployment where a channel declares a transport that is not permitted.
pub fn reject_disallowed_transports(
    definitions: &Vec<ChannelDefinition>,
    allowed: &TextSet,
    dep: &str,
) -> (r: Result<(), String>)
    ensures
        match r {
            Ok(_) => first_refusal(channels(definitions@), allowed@, dep@) is None,
            Err(e) => first_refusal(channels(definitions@), allowed@, dep@) == Some(e@),
        },
{
    let ghost all = channels(definitions@);
    let mut i: usize = 0;
    assert(all.skip(0) =~= all);
    while i < definitions.len()
        invariant
            i <= definitions.len(),
            all == channels(definitions@),
            first_refusal(all, allowed@, dep@) == first_refusal(
                all.skip(i as int),
                allowed@,
                dep@,
            ),
        decreases definitions.len() - i,
    {
        let def = &definitions[i];
        assert(all.skip(i as int)[0] == def@);
        assert(all.skip(i as int).drop_first() =~= all.skip(i + 1));
        match &def.transport {
            Some(t) => {
                let transport = text::trim(t);
                if !transport.as_str().is_empty() && !text::same(&transport, LOCAL_TRANSPORT)
                    && !text::same(&transport, PULL_TRANSPORT) && !allowed.contains(&transport) {
                    let names = allowed.to_texts();
                    let head = text::text5(
                        "channel '",
                        &def.channel_name,
                        "' of deployment ",
                        dep,
                        " declares transport '",
                    );
                    let permitted = text::join(&names, ", ");
                    return Err(
                        text::text5(
                            &head,
                            &transport,
                            "', which is not permitted in this engine (permitted transports: [",
                            &permitted,
                            "]). This engine bundles/allows only those transports (SUTRA_ALLOWED_TRANSPORTS + the linked transport crates); a hardened build rejects any other protocol.",
                        ),
                    );
                }
            },
            None => {},
        }
        i = i + 1;
    }
    Ok(())
}

// ---- destinations ------------------------------------------------------------------------------

/// The destination that a bare target under an internal scheme stands for; any other destination is
/// left as it is.
pub open spec fn qualified(destination: Seq<char>, scheme: Seq<char>, module_key: Seq<char>) -> Seq<
    char,
> {
    let prefix = scheme + "://"@;
    let target = destination.skip(prefix.len() as int);
    if target.len() > 0 && !target.contains('/') {
        prefix + module_key + "/"@ + target
    } else {
        destination
    }
}

/// The full destination of an outbound bind.
pub open spec fn expanded(destination: Seq<char>, module_key: Seq<char>) -> Seq<char> {
    if text::begins(destination, LOCAL_TRANSPORT@ + "://"@) {
        qualified(destination, LOCAL_TRANSPORT@, module_key)
    } else if text::begins(destination, PULL_TRANSPORT@ + "://"@) {
        qualified(destination, PULL_TRANSPORT@, module_key)
    } else {
        destination
    }
}

/// Expanding a destination again changes nothing, under whatever module key.
pub proof fn expanding_twice_is_expanding_once(
    destination: Seq<char>,
    module_key: Seq<char>,
    other_key: Seq<char>,
)
    ensures
        expanded(expanded(destination, module_key), other_key) == expanded(
            destination,
            module_key,
        ),
{
    reveal_strlit("/");
    reveal_strlit("://");
    reveal_strlit("local");
    reveal_strlit("pull");
    let e = expanded(destination, module_key);
    if e != destination {
        let prefix = if text::begins(destination, LOCAL_TRANSPORT@ + "://"@) {
            LOCAL_TRANSPORT@ + "://"@
        } else {
            PULL_TRANSPORT@ + "://"@
        };
        let target = destination.skip(prefix.len() as int);
        assert(e =~= prefix + (module_key + "/"@ + target));
        assert(e.take(prefix.len() as int) =~= prefix);
        let rest = e.skip(prefix.len() as int);
        assert(rest =~= module_key + "/"@ + target);
        assert(rest[module_key.len() as int] == '/');
        assert(rest.contains('/'));
        assert(destination.take(prefix.len() as int) =~= prefix);
        assert(prefix[0] == e[0]);
        if prefix == PULL_TRANSPORT@ + "://"@ {
            assert(prefix[0] == 'p');
            let local = LOCAL_TRANSPORT@ + "://"@;
            assert(local[0] == 'l');
            if text::begins(e, local) {
                assert(e.take(local.len() as int)[0] == local[0]);
            }
        }
    } else {
        // A bare target would have grown by the key and a slash.
        let local = LOCAL_TRANSPORT@ + "://"@;
        let pull = PULL_TRANSPORT@ + "://"@;
        if text::begins(destination, local) {
            let target = destination.skip(local.len() as int);
            assert((local + module_key + "/"@ + target).len() > destination.len());
        } else if text::begins(destination, pull) {
            let target = destination.skip(pull.len() as int);
            assert((pull + module_key + "/"@ + target).len() > destination.len());
        }
    }
}

fn qualify(destination: &str, scheme: &str, module_key: &str) -> (r: Option<String>)
    ensures
        match r {
            Some(d) => text::begins(destination@, scheme@ + "://"@) && d@ == qualified(
                destination@,
                scheme@,
                module_key@,
            ),
            None => !text::begins(destination@, scheme@ + "://"@),
        },
{
    let prefix = text::text2(scheme, "://");
    match text::strip_prefix(destination, &prefix) {
        None => None,
        Some(target) => {
            let chars = text::chars_of(&target);
            let at = text::find_char(&chars, '/');
            proof {
                text::first_at_is_least(target@, '/');
                assert(target@ =~= destination@.skip(prefix@.len() as int));
                if at < chars.len() {
                    assert(target@[at as int] == '/');
                }
            }
            if !target.as_str().is_empty() && at == chars.len() {
                Some(text::text4(&prefix, module_key, "/", &target))
            } else {
                Some(destination.to_owned())
            }
        },
    }
}

/// Expand a `local://` or `pull://` bind into the full destination: a bare target is qualified with
/// the module key; anything else is returned as it is.
pub fn expand_local_destination(destination: &str, module_key: &str) -> (r: String)
    ensures
        r@ == expanded(destination@, module_key@),
{
    match qualify(destination, LOCAL_TRANSPORT, module_key) {
        Some(d) => d,
        None => match qualify(destination, PULL_TRANSPORT, module_key) {
            Some(d) => d,
            None => destination.to_owned(),
        },
    }
}

} // verus!
