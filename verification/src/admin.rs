//! The guard in front of the administrative surface.
//!
//! The guard is resolved once from the configuration and fails closed: a surface that is not
//! configured answers that it is unavailable, a missing or invalid credential is unauthorized, a
//! valid token without the required role is forbidden, and only the explicit development flag opens
//! the surface to everyone.

use jsonwebtoken::jwk::AlgorithmParameters;
use jsonwebtoken::{decode, DecodingKey, Validation};
use serde_json::{from_str, Value};
use vstd::prelude::*;

use crate::config::{AdminAuthConfig, AdminAuthView};
use crate::json::{Json, JsonView};
use crate::keyed;
use crate::keyed::TextMap;
use crate::sources;
use crate::text;

verus! {

// ---- what the jsonwebtoken crate gives ---------------------------------------------------------

/// A signing key: its id, and its JWK as JSON text.
#[derive(Debug, PartialEq, Eq)]
pub struct SigningKey {
    pub kid: Option<String>,
    pub jwk: String,
}

/// What a signing key holds: its id, and its JWK.
pub type KeyView = (Option<Seq<char>>, Seq<char>);

/// What a row of keys holds.
pub open spec fn keys_of(keys: Seq<SigningKey>) -> Seq<KeyView> {
    keys.map_values(|k: SigningKey| (sources::opt(k.kid), k.jwk@))
}

/// The keys in a JWKS document, in the document's order, or why it is none.
pub uninterp spec fn jwks_keys(document: Seq<char>) -> Result<
    Seq<(Option<Seq<char>>, Seq<char>)>,
    Seq<char>,
>;

/// `serde_json::from_str` into a `jsonwebtoken::jwk::JwkSet`, and its keys back into JSON text: the
/// document's keys, named by [`jwks_keys`], or the error's text. What makes a document valid, and
/// how a key is written, is left unsaid.
#[verifier::external_body]
fn parse_jwks(document: &str) -> (r: Result<Vec<SigningKey>, String>)
    ensures
        match r {
            Ok(keys) => jwks_keys(document@) == Ok::<Seq<KeyView>, Seq<char>>(keys_of(keys@)),
            Err(e) => jwks_keys(document@) == Err::<Seq<KeyView>, Seq<char>>(e@),
        },
{
    let set: jsonwebtoken::jwk::JwkSet = from_str(document).map_err(|e| e.to_string())?;
    let mut out = Vec::new();
    for k in set.keys {
        let jwk = serde_json::to_string(&k).map_err(|e| e.to_string())?;
        out.push(SigningKey { kid: k.common.key_id, jwk });
    }
    Ok(out)
}

/// The algorithm's name and the key id in a token's header, where the header can be read.
pub uninterp spec fn token_header(token: Seq<char>) -> Option<(Seq<char>, Option<Seq<char>>)>;

/// `jsonwebtoken::decode_header`, named by [`token_header`]: the name of the header's algorithm and
/// its key id. Nothing in the header is verified.
#[verifier::external_body]
fn decode_header(token: &str) -> (r: Option<(String, Option<String>)>)
    ensures
        match r {
            Some(h) => token_header(token@) == Some((h.0@, sources::opt(h.1))),
            None => token_header(token@) is None,
        },
{
    match jsonwebtoken::decode_header(token) {
        Ok(h) => Some((format!("{:?}", h.alg), h.kid)),
        Err(_) => None,
    }
}

/// What a token's role claim holds.
#[derive(Debug, PartialEq, Eq)]
pub enum RoleClaim {
    /// No claim, or one of another shape.
    Other,
    /// A text of words.
    Text(String),
    /// A list; an item that is no text is `None`.
    List(Vec<Option<String>>),
}

/// What a [`RoleClaim`] holds.
pub enum ClaimView {
    Other,
    Text(Seq<char>),
    List(Seq<Option<Seq<char>>>),
}

impl View for RoleClaim {
    type V = ClaimView;

    open spec fn view(&self) -> ClaimView {
        match self {
            RoleClaim::Other => ClaimView::Other,
            RoleClaim::Text(s) => ClaimView::Text(s@),
            RoleClaim::List(items) => ClaimView::List(
                items@.map_values(|i: Option<String>| sources::opt(i)),
            ),
        }
    }
}

/// Why a token's claims cannot be relied on.
#[derive(Debug, Clone, Copy, PartialEq, Eq, Structural)]
pub enum TokenProblem {
    UnusableKey,
    Rejected,
}

/// Whether a JWK holds a key that signatures can be checked with.
pub uninterp spec fn usable_key(jwk: Seq<char>) -> bool;

/// How many bytes the public key of a JWK has where the JWK is an octet key pair; `None` for any other
/// JWK, and for one whose bytes cannot be read.
pub uninterp spec fn octet_key_len(jwk: Seq<char>) -> Option<usize>;

/// `jsonwebtoken::DecodingKey::from_ed_components` on the key of an octet key pair: how many bytes it
/// has, named by [`octet_key_len`]. Which texts are such a JWK is left unsaid.
#[verifier::external_body]
fn octet_key_bytes(jwk: &str) -> (r: Option<usize>)
    ensures
        r == octet_key_len(jwk@),
{
    let parsed: jsonwebtoken::jwk::Jwk = from_str(jwk).ok()?;
    match &parsed.algorithm {
        AlgorithmParameters::OctetKeyPair(p) => {
            DecodingKey::from_ed_components(&p.x).ok().map(|k| k.as_bytes().len())
        },
        _ => None,
    }
}

/// Whether a JWK can be used with an algorithm: its key can be made and, under EdDSA, an octet key
/// pair has as many bytes as an Ed25519 key.
pub open spec fn fits(jwk: Seq<char>, alg: Seq<char>) -> bool {
    usable_key(jwk) && (alg == "EdDSA"@ ==> match octet_key_len(jwk) {
        Some(n) => n >= 32,
        None => true,
    })
}

/// The claims that a token must have: without an issuer or an audience nothing could match the wanted
/// ones.
pub open spec fn required_claims() -> Seq<Seq<char>> {
    seq!["exp"@, "iss"@, "aud"@]
}

/// The claim of a token that is vouched for: its signature holds under the key and the algorithm, it
/// has the required claims, and where it names an issuer or an audience, that is the wanted one.
/// `None` for any other token. The token's times are left aside.
pub uninterp spec fn vouched(
    token: Seq<char>,
    jwk: Seq<char>,
    alg: Seq<char>,
    issuer: Seq<char>,
    audience: Seq<char>,
    required: Seq<Seq<char>>,
    claim: Seq<char>,
) -> Option<ClaimView>;

/// `jsonwebtoken::decode` under one key and one algorithm, with the issuer and the audience to hold
/// and the claims that must be there: the token's claim `role_claim`, named by [`vouched`], or why
/// the token is refused. The key is made by `jsonwebtoken::DecodingKey::from_jwk`; whether it can be
/// made is named by [`usable_key`], and the refusal says so exactly where it cannot. A token is
/// accepted only where its header names that algorithm. Under EdDSA the call reads the first 32 bytes
/// of an octet key pair and panics on a shorter one, so such a key is left out. Nothing is said of
/// when a token is refused under a usable key: that depends on the clock too, which is taken to stand
/// past 1970.
#[verifier::external_body]
fn decode_claims(
    token: &str,
    jwk: &str,
    alg: &str,
    issuer: &str,
    audience: &str,
    required: &Vec<String>,
    role_claim: &str,
) -> (r: Result<RoleClaim, TokenProblem>)
    requires
        alg@ == "EdDSA"@ ==> match octet_key_len(jwk@) {
            Some(n) => n >= 32,
            None => true,
        },
    ensures
        r matches Ok(c) ==> vouched(
            token@,
            jwk@,
            alg@,
            issuer@,
            audience@,
            text::texts(required@),
            role_claim@,
        ) == Some(c@),
        r is Ok ==> (token_header(token@) matches Some(h) && h.0 == alg@),
        (r matches Err(TokenProblem::UnusableKey)) == !usable_key(jwk@),
{
    let key = from_str(jwk).ok().and_then(|k| DecodingKey::from_jwk(&k).ok()).ok_or(TokenProblem::UnusableKey)?;
    let mut validation = Validation::new(alg.parse().or(Err(TokenProblem::Rejected))?);
    validation.set_issuer(&[issuer]);
    validation.set_audience(&[audience]);
    validation.set_required_spec_claims(required);
    Ok(match decode::<Value>(token, &key, &validation).or(Err(TokenProblem::Rejected))?.claims.get(role_claim) {
        Some(Value::String(s)) => RoleClaim::Text(s.clone()),
        Some(Value::Array(v)) => RoleClaim::List(v.iter().map(|i| i.as_str().map(str::to_owned)).collect()),
        _ => RoleClaim::Other,
    })
}

// ---- static secrets ----------------------------------------------------------------------------

/// The static-secret schemes.
#[derive(Debug, Clone, Copy, PartialEq, Eq, Structural)]
pub enum InboundScheme {
    ApiKey,
    Bearer,
}

/// The header that carries an API key where none is configured.
pub const DEFAULT_APIKEY_HEADER: &'static str = "X-API-Key";

/// The header that carries a bearer secret where none is configured.
pub const DEFAULT_BEARER_HEADER: &'static str = "authorization";

/// The token behind a leading `Bearer ` in either case of letters; any other value unchanged.
pub open spec fn bearer_stripped(v: Seq<char>) -> Seq<char> {
    if v.len() >= 7 && text::lowered(v.take(7)) == "bearer "@ {
        text::trimmed(v.skip(7))
    } else {
        v
    }
}

/// Strip a leading `Bearer ` scheme.
pub fn strip_bearer_prefix(value: &str) -> (r: String)
    ensures
        r@ == bearer_stripped(value@),
{
    let x = text::chars_of(value);
    if x.len() >= 7 {
        let head = text::text_of(&x, 0, 7);
        assert(x@.subrange(0, 7) =~= value@.take(7));
        if text::same(&text::to_lower(&head), "bearer ") {
            let rest = text::text_of(&x, 7, x.len());
            assert(rest@ =~= value@.skip(7));
            return text::trim(&rest);
        }
    }
    value.to_owned()
}

/// Whether two texts are equal, found in time that depends on their lengths alone.
pub fn constant_time_equals(a: &str, b: &str) -> (r: bool)
    ensures
        r == (a@ == b@),
{
    let x = a.as_bytes();
    let y = b.as_bytes();
    proof {
        vstd::utf8::encode_utf8_decode_utf8(a@);
        vstd::utf8::encode_utf8_decode_utf8(b@);
    }
    if x.len() != y.len() {
        return false;
    }
    let mut differs: u8 = 0;
    let mut i: usize = 0;
    while i < x.len()
        invariant
            i <= x.len(),
            x.len() == y.len(),
            differs == 0 <==> (forall|k: int| 0 <= k < i ==> x@[k] == y@[k]),
        decreases x.len() - i,
    {
        let p: u8 = x[i];
        let q: u8 = y[i];
        let next: u8 = differs | (p ^ q);
        assert(next == 0 <==> differs == 0 && p == q) by (bit_vector)
            requires
                next == differs | (p ^ q),
        ;
        differs = next;
        i = i + 1;
    }
    assert(differs == 0 <==> x@ =~= y@);
    differs == 0
}

/// The static-secret guard: the expected secret in a header.
pub struct AdminKeyGate {
    pub scheme: InboundScheme,
    pub header: String,
    pub expected: String,
}

/// The contents of an [`AdminKeyGate`].
pub struct AdminKeyGateView {
    pub scheme: InboundScheme,
    pub header: Seq<char>,
    pub expected: Seq<char>,
}

impl View for AdminKeyGate {
    type V = AdminKeyGateView;

    open spec fn view(&self) -> AdminKeyGateView {
        AdminKeyGateView {
            scheme: self.scheme,
            header: self.header@,
            expected: self.expected@,
        }
    }
}

impl AdminKeyGateView {
    /// Whether the value of the guard's header carries the expected secret.
    pub open spec fn admits(self, value: Option<Seq<char>>) -> bool {
        match value {
            None => false,
            Some(v) => {
                let presented = match self.scheme {
                    InboundScheme::Bearer => bearer_stripped(text::trimmed(v)),
                    InboundScheme::ApiKey => text::trimmed(v),
                };
                presented == self.expected
            },
        }
    }
}

impl AdminKeyGate {
    /// Whether a request whose header of this guard's name holds `value` is authorized.
    pub fn authorized(&self, value: &Option<String>) -> (r: bool)
        ensures
            r == self@.admits(sources::opt(*value)),
    {
        match value {
            None => false,
            Some(v) => {
                let trimmed = text::trim(v);
                let presented = match self.scheme {
                    InboundScheme::Bearer => strip_bearer_prefix(&trimmed),
                    InboundScheme::ApiKey => trimmed,
                };
                constant_time_equals(&self.expected, &presented)
            },
        }
    }
}

// ---- bearer tokens -----------------------------------------------------------------------------

/// Where the verifier gets its signing keys.
pub enum JwksSource {
    /// An inline document.
    Static(Vec<SigningKey>),
    /// An endpoint to fetch from.
    Remote(String),
}

/// The bearer-token verifier.
pub struct OidcVerifier {
    pub issuer: String,
    pub audience: String,
    pub role_claim: String,
    pub required_role: String,
    pub jwks: JwksSource,
}

/// What a JWKS reference turned out to be.
pub enum JwksView {
    Static(Seq<KeyView>),
    Remote(Seq<char>),
}

/// The contents of an [`OidcVerifier`], its keys by their ids.
pub struct OidcVerifierView {
    pub issuer: Seq<char>,
    pub audience: Seq<char>,
    pub role_claim: Seq<char>,
    pub required_role: Seq<char>,
    pub jwks: JwksView,
}

impl View for OidcVerifier {
    type V = OidcVerifierView;

    open spec fn view(&self) -> OidcVerifierView {
        OidcVerifierView {
            issuer: self.issuer@,
            audience: self.audience@,
            role_claim: self.role_claim@,
            required_role: self.required_role@,
            jwks: match self.jwks {
                JwksSource::Static(keys) => JwksView::Static(keys_of(keys@)),
                JwksSource::Remote(url) => JwksView::Remote(url@),
            },
        }
    }
}

/// What a resolved JWKS value stands for: an HTTP endpoint, or an inline document with keys.
pub open spec fn jwks_of(value: Seq<char>) -> Result<JwksView, Seq<char>> {
    let v = text::trimmed(value);
    if text::begins(v, "http://"@) || text::begins(v, "https://"@) {
        Ok(JwksView::Remote(v))
    } else {
        match jwks_keys(v) {
            Err(e) => Err(
                "jwks is neither an http(s) URL nor a valid JWKS JSON document: "@ + e,
            ),
            Ok(keys) => if keys.len() == 0 {
                Err("inline JWKS document has no keys"@)
            } else {
                Ok(JwksView::Static(keys))
            },
        }
    }
}

/// The verifier that a configuration gives.
pub open spec fn oidc_verifier(
    issuer: Seq<char>,
    audience: Seq<char>,
    jwks_ref: Seq<char>,
    role_claim: Seq<char>,
    required_role: Seq<char>,
    to: sources::Resolution,
) -> Result<OidcVerifierView, Seq<char>> {
    match to(jwks_ref) {
        Err(e) => Err("jwks reference '"@ + jwks_ref + "' did not resolve: "@ + e),
        Ok(v) => match jwks_of(v) {
            Err(e) => Err(e),
            Ok(jwks) => Ok(
                OidcVerifierView { issuer, audience, role_claim, required_role, jwks },
            ),
        },
    }
}

/// Classify a resolved JWKS value.
pub fn classify_jwks(value: &str) -> (r: Result<JwksSource, String>)
    ensures
        match r {
            Ok(JwksSource::Static(keys)) => jwks_of(value@) == Ok::<JwksView, Seq<char>>(
                JwksView::Static(keys_of(keys@)),
            ),
            Ok(JwksSource::Remote(url)) => jwks_of(value@) == Ok::<JwksView, Seq<char>>(
                JwksView::Remote(url@),
            ),
            Err(e) => jwks_of(value@) == Err::<JwksView, Seq<char>>(e@),
        },
{
    let v = text::trim(value);
    if text::starts_with(&v, "http://") || text::starts_with(&v, "https://") {
        return Ok(JwksSource::Remote(v));
    }
    match parse_jwks(&v) {
        Err(e) => Err(
            text::text2("jwks is neither an http(s) URL nor a valid JWKS JSON document: ", &e),
        ),
        Ok(keys) => {
            if keys.len() == 0 {
                Err("inline JWKS document has no keys".to_owned())
            } else {
                Ok(JwksSource::Static(keys))
            }
        },
    }
}

/// The place of the key that a token's key id selects, or the number of keys: the first with that
/// id, or the only key where the token names none.
pub open spec fn selected(keys: Seq<KeyView>, kid: Option<Seq<char>>) -> int
    decreases keys.len(),
{
    match kid {
        Some(_) => if keys.len() == 0 || keys[0].0 == kid {
            0
        } else {
            1 + selected(keys.drop_first(), kid)
        },
        None => if keys.len() == 1 {
            0
        } else {
            keys.len() as int
        },
    }
}

/// The key that a token's key id selects.
pub fn lookup<'a>(keys: &'a Vec<SigningKey>, kid: &Option<String>) -> (r: Option<&'a SigningKey>)
    ensures
        match r {
            Some(k) => {
                let at = selected(keys_of(keys@), sources::opt(*kid));
                0 <= at < keys@.len() && *k == keys@[at]
            },
            None => selected(keys_of(keys@), sources::opt(*kid)) >= keys@.len(),
        },
{
    let ghost all = keys_of(keys@);
    let ghost want = sources::opt(*kid);
    match kid {
        None => {
            if keys.len() == 1 {
                Some(&keys[0])
            } else {
                None
            }
        },
        Some(id) => {
            let mut i: usize = 0;
            assert(all.skip(0) =~= all);
            while i < keys.len()
                invariant
                    i <= keys.len(),
                    all == keys_of(keys@),
                    want == Some(id@),
                    want == sources::opt(*kid),
                    selected(all, want) == i + selected(all.skip(i as int), want),
                decreases keys.len() - i,
            {
                assert(all.skip(i as int)[0].0 == sources::opt(keys@[i as int].kid));
                match &keys[i].kid {
                    Some(k) => {
                        if text::same(k, id) {
                            return Some(&keys[i]);
                        }
                    },
                    None => {},
                }
                assert(all.skip(i as int).drop_first() =~= all.skip(i + 1));
                i = i + 1;
            }
            None
        },
    }
}

/// The fate of one request.
#[derive(Debug, Clone, Copy, PartialEq, Eq)]
pub enum AdminDecision {
    Authorized,
    /// No usable identity.
    Unauthenticated(&'static str),
    /// An identity without the required role.
    Forbidden,
}

/// The contents of an [`AdminDecision`].
pub enum DecisionView {
    Authorized,
    Unauthenticated(Seq<char>),
    Forbidden,
}

impl View for AdminDecision {
    type V = DecisionView;

    open spec fn view(&self) -> DecisionView {
        match self {
            AdminDecision::Authorized => DecisionView::Authorized,
            AdminDecision::Unauthenticated(why) => DecisionView::Unauthenticated(why@),
            AdminDecision::Forbidden => DecisionView::Forbidden,
        }
    }
}

/// Whether an algorithm is of the public-key family.
pub open spec fn asymmetric(alg: Seq<char>) -> bool {
    alg == "RS256"@ || alg == "RS384"@ || alg == "RS512"@ || alg == "PS256"@ || alg == "PS384"@
        || alg == "PS512"@ || alg == "ES256"@ || alg == "ES384"@ || alg == "EdDSA"@
}

/// No shared-secret algorithm is of the public-key family.
pub proof fn shared_secrets_are_not_asymmetric()
    ensures
        !asymmetric("HS256"@),
        !asymmetric("HS384"@),
        !asymmetric("HS512"@),
{
    reveal_strlit("HS256");
    reveal_strlit("HS384");
    reveal_strlit("HS512");
    reveal_strlit("RS256");
    reveal_strlit("RS384");
    reveal_strlit("RS512");
    reveal_strlit("PS256");
    reveal_strlit("PS384");
    reveal_strlit("PS512");
    reveal_strlit("ES256");
    reveal_strlit("ES384");
    reveal_strlit("EdDSA");
    assert("HS256"@[0] == 'H' && "HS384"@[0] == 'H' && "HS512"@[0] == 'H');
    assert("RS256"@[0] == 'R' && "RS384"@[0] == 'R' && "RS512"@[0] == 'R');
    assert("PS256"@[0] == 'P' && "PS384"@[0] == 'P' && "PS512"@[0] == 'P');
    assert("ES256"@[0] == 'E' && "ES384"@[0] == 'E' && "EdDSA"@[0] == 'E');
}

/// A token header that may go on to verification.
pub struct TokenHeader {
    pub alg: String,
    pub kid: Option<String>,
}

/// What is decided from a token's header alone.
pub open spec fn header_outcome(header: Option<(Seq<char>, Option<Seq<char>>)>) -> Result<
    (Seq<char>, Option<Seq<char>>),
    DecisionView,
> {
    match header {
        None => Err(DecisionView::Unauthenticated("malformed JWT header"@)),
        Some(h) => if asymmetric(h.0) {
            Ok(h)
        } else {
            Err(DecisionView::Unauthenticated("unsupported (non-asymmetric) token algorithm"@))
        },
    }
}

fn is_asymmetric(alg: &str) -> (r: bool)
    ensures
        r == asymmetric(alg@),
{
    text::same(alg, "RS256") || text::same(alg, "RS384") || text::same(alg, "RS512") || text::same(
        alg,
        "PS256",
    ) || text::same(alg, "PS384") || text::same(alg, "PS512") || text::same(alg, "ES256")
        || text::same(alg, "ES384") || text::same(alg, "EdDSA")
}

/// Decide from what a token's header was read as.
pub fn judge_header(header: Option<(String, Option<String>)>) -> (r: Result<
    TokenHeader,
    AdminDecision,
>)
    ensures
        ({
            let h = match header {
                Some(p) => Some((p.0@, sources::opt(p.1))),
                None => None,
            };
            match r {
                Ok(t) => header_outcome(h) == Ok::<(Seq<char>, Option<Seq<char>>), DecisionView>(
                    (t.alg@, sources::opt(t.kid)),
                ),
                Err(d) => header_outcome(h) == Err::<
                    (Seq<char>, Option<Seq<char>>),
                    DecisionView,
                >(d@),
            }
        }),
{
    match header {
        None => Err(AdminDecision::Unauthenticated("malformed JWT header")),
        Some((alg, kid)) => {
            if is_asymmetric(&alg) {
                Ok(TokenHeader { alg, kid })
            } else {
                Err(
                    AdminDecision::Unauthenticated(
                        "unsupported (non-asymmetric) token algorithm",
                    ),
                )
            }
        },
    }
}

/// Read a token's header, and refuse every algorithm that is not of the public-key family before
/// any key is touched.
pub fn check_header(token: &str) -> (r: Result<TokenHeader, AdminDecision>)
    ensures
        match r {
            Ok(t) => header_outcome(token_header(token@)) == Ok::<
                (Seq<char>, Option<Seq<char>>),
                DecisionView,
            >((t.alg@, sources::opt(t.kid))),
            Err(d) => header_outcome(token_header(token@)) == Err::<
                (Seq<char>, Option<Seq<char>>),
                DecisionView,
            >(d@),
        },
{
    judge_header(decode_header(token))
}

/// Whether a role claim carries the required role: as a word of a text, or as an item of a list.
pub open spec fn has_role(claim: ClaimView, role: Seq<char>) -> bool {
    match claim {
        ClaimView::Other => false,
        ClaimView::Text(s) => text::words(s).contains(role),
        ClaimView::List(items) => items.contains(Some(role)),
    }
}

/// What is decided from a claim that is vouched for.
pub open spec fn claimed(claim: ClaimView, role: Seq<char>) -> DecisionView {
    if has_role(claim, role) {
        DecisionView::Authorized
    } else {
        DecisionView::Forbidden
    }
}

/// What is decided about a token that cannot be relied on.
pub open spec fn distrusted(problem: TokenProblem) -> DecisionView {
    match problem {
        TokenProblem::UnusableKey => DecisionView::Unauthenticated("unusable JWKS key"@),
        TokenProblem::Rejected => DecisionView::Unauthenticated(
            "token rejected (signature / issuer / audience / expiry)"@,
        ),
    }
}

/// What is decided from a verification's outcome.
pub open spec fn verified_decision(
    outcome: Result<RoleClaim, TokenProblem>,
    role: Seq<char>,
) -> DecisionView {
    match outcome {
        Err(problem) => distrusted(problem),
        Ok(claim) => claimed(claim@, role),
    }
}

/// Whether `d` is a decision that a verifier can come to about a token under these keys: the
/// refusal of its header, of keys that are unavailable or hold none for it, of a key that cannot be
/// used with its algorithm, or of the token; or else what its role claim says, vouched for by the key that its header
/// selects.
pub open spec fn decides(
    v: OidcVerifierView,
    token: Seq<char>,
    keys: Option<Seq<KeyView>>,
    d: DecisionView,
) -> bool {
    match header_outcome(token_header(token)) {
        Err(refused) => d == refused,
        Ok(h) => match keys {
            None => d == DecisionView::Unauthenticated("signing keys (JWKS) are unavailable"@),
            Some(set) => if selected(set, h.1) >= set.len() {
                d == DecisionView::Unauthenticated("no JWKS key matches the token 'kid'"@)
            } else {
                let jwk = set[selected(set, h.1)].1;
                if !fits(jwk, h.0) {
                    d == distrusted(TokenProblem::UnusableKey)
                } else {
                    ||| d == distrusted(TokenProblem::Rejected)
                    ||| vouched(
                        token,
                        jwk,
                        h.0,
                        v.issuer,
                        v.audience,
                        required_claims(),
                        v.role_claim,
                    ) matches Some(claim) && d == claimed(claim, v.required_role)
                }
            },
        },
    }
}

/// A token under a shared-secret algorithm is never let in, whatever the keys are.
pub proof fn shared_secret_tokens_are_refused(
    v: OidcVerifierView,
    token: Seq<char>,
    keys: Option<Seq<KeyView>>,
    d: DecisionView,
)
    requires
        decides(v, token, keys, d),
        token_header(token) matches Some(h) && (h.0 == "HS256"@ || h.0 == "HS384"@ || h.0
            == "HS512"@),
    ensures
        d is Unauthenticated,
{
    shared_secrets_are_not_asymmetric();
}

/// A token is let in only where its header names an algorithm of the public-key family and selects
/// one of the keys, and that key vouches under that algorithm, for the verifier's issuer and
/// audience, which the token has to name, for a claim that carries the required role.
pub proof fn entry_needs_a_vouched_role(
    v: OidcVerifierView,
    token: Seq<char>,
    keys: Option<Seq<KeyView>>,
)
    requires
        decides(v, token, keys, DecisionView::Authorized),
    ensures
        token_header(token) matches Some(h) && asymmetric(h.0) && keys is Some && ({
            let at = selected(keys->0, h.1);
            at < keys->0.len() && (vouched(
                token,
                keys->0[at].1,
                h.0,
                v.issuer,
                v.audience,
                required_claims(),
                v.role_claim,
            ) matches Some(claim) && has_role(claim, v.required_role))
        }),
{
}

/// Whether the keys at hand do not answer for a token, so that they have to be fetched.
pub open spec fn must_fetch(cached: Option<Seq<KeyView>>, kid: Option<Seq<char>>) -> bool {
    match cached {
        Some(keys) => selected(keys, kid) >= keys.len(),
        None => true,
    }
}

/// What to do about a token next.
pub enum TokenStep {
    Decided(AdminDecision),
    /// Fetch the keys from here, keep them, and decide with them.
    Fetch(String),
}

impl OidcVerifier {
    /// Build the verifier; `resolve` resolves the JWKS reference.
    pub fn build<R: Fn(&str) -> Result<String, String>>(
        issuer: &str,
        audience: &str,
        jwks_ref: &str,
        role_claim: &str,
        required_role: &str,
        resolve: &R,
    ) -> (r: Result<OidcVerifier, String>)
        requires
            forall|s: &str| call_requires(resolve, (s,)),
        ensures
            forall|to: sources::Resolution| #[trigger]
                sources::resolves(*resolve, to) ==> match r {
                    Ok(v) => oidc_verifier(
                        issuer@,
                        audience@,
                        jwks_ref@,
                        role_claim@,
                        required_role@,
                        to,
                    ) == Ok::<OidcVerifierView, Seq<char>>(v@),
                    Err(e) => oidc_verifier(
                        issuer@,
                        audience@,
                        jwks_ref@,
                        role_claim@,
                        required_role@,
                        to,
                    ) == Err::<OidcVerifierView, Seq<char>>(e@),
                },
    {
        let value = match resolve(jwks_ref) {
            Ok(v) => v,
            Err(e) => {
                return Err(
                    text::text4("jwks reference '", jwks_ref, "' did not resolve: ", &e),
                );
            },
        };
        match classify_jwks(&value) {
            Err(e) => Err(e),
            Ok(jwks) => Ok(
                OidcVerifier {
                    issuer: issuer.to_owned(),
                    audience: audience.to_owned(),
                    role_claim: role_claim.to_owned(),
                    required_role: required_role.to_owned(),
                    jwks,
                },
            ),
        }
    }

    /// Whether a role claim carries the required role.
    pub fn has_required_role(&self, claim: &RoleClaim) -> (r: bool)
        ensures
            r == has_role(claim@, self.required_role@),
    {
        match claim {
            RoleClaim::Other => false,
            RoleClaim::Text(s) => text::has_word(s, &self.required_role),
            RoleClaim::List(items) => {
                let ghost held = items@.map_values(|i: Option<String>| sources::opt(i));
                let mut i: usize = 0;
                while i < items.len()
                    invariant
                        i <= items.len(),
                        claim@ == ClaimView::List(held),
                        held == items@.map_values(|i: Option<String>| sources::opt(i)),
                        forall|k: int|
                            0 <= k < i ==> #[trigger] held[k] != Some(self.required_role@),
                    decreases items.len() - i,
                {
                    match &items[i] {
                        Some(s) => {
                            if text::same(s, &self.required_role) {
                                assert(held[i as int] == Some(self.required_role@));
                                return true;
                            }
                        },
                        None => {},
                    }
                    assert(held[i as int] == sources::opt(items@[i as int]));
                    i = i + 1;
                }
                false
            },
        }
    }

    /// Decide from a verification's outcome.
    pub fn judge(&self, outcome: &Result<RoleClaim, TokenProblem>) -> (r: AdminDecision)
        ensures
            r@ == verified_decision(*outcome, self.required_role@),
    {
        match outcome {
            Err(TokenProblem::UnusableKey) => AdminDecision::Unauthenticated("unusable JWKS key"),
            Err(TokenProblem::Rejected) => AdminDecision::Unauthenticated(
                "token rejected (signature / issuer / audience / expiry)",
            ),
            Ok(claim) => if self.has_required_role(claim) {
                AdminDecision::Authorized
            } else {
                AdminDecision::Forbidden
            },
        }
    }

    /// Decide about a token with the verifier's keys, `None` where they are unavailable. Whether a
    /// token that could be let in is refused depends on the clock too.
    pub fn authorize(&self, token: &str, keys: Option<&Vec<SigningKey>>) -> (r: AdminDecision)
        ensures
            decides(
                self@,
                token@,
                match keys {
                    Some(k) => Some(keys_of(k@)),
                    None => None,
                },
                r@,
            ),
    {
        let header = match check_header(token) {
            Ok(h) => h,
            Err(d) => {
                return d;
            },
        };
        let found = match keys {
            None => {
                return AdminDecision::Unauthenticated("signing keys (JWKS) are unavailable");
            },
            Some(set) => lookup(set, &header.kid),
        };
        match found {
            None => AdminDecision::Unauthenticated("no JWKS key matches the token 'kid'"),
            Some(key) => {
                if text::same(&header.alg, "EdDSA") {
                    match octet_key_bytes(&key.jwk) {
                        Some(n) => if n < 32 {
                            return self.judge(&Err(TokenProblem::UnusableKey));
                        },
                        None => {},
                    }
                }
                let mut required: Vec<String> = Vec::new();
                required.push("exp".to_owned());
                required.push("iss".to_owned());
                required.push("aud".to_owned());
                assert(text::texts(required@) =~= required_claims());
                let outcome = decode_claims(
                    token,
                    &key.jwk,
                    &header.alg,
                    &self.issuer,
                    &self.audience,
                    &required,
                    &self.role_claim,
                );
                self.judge(&outcome)
            },
        }
    }

    /// Start on a token: decide where the keys at hand suffice, else ask for a fetch. `cache` holds
    /// the keys of the last fetch. A refused header never causes a fetch; a remote source is asked
    /// only where nothing is cached or the cached keys hold none for the token.
    pub fn begin(&self, token: &str, cache: Option<&Vec<SigningKey>>) -> (r: TokenStep)
        ensures
            ({
                let header = token_header(token@);
                let cached = match cache {
                    Some(k) => Some(keys_of(k@)),
                    None => None,
                };
                match header_outcome(header) {
                    Err(d) => r matches TokenStep::Decided(x) && x@ == d,
                    Ok(h) => match self@.jwks {
                        JwksView::Static(keys) => r matches TokenStep::Decided(x) && decides(
                            self@,
                            token@,
                            Some(keys),
                            x@,
                        ),
                        JwksView::Remote(url) => if cached is Some && selected(cached->0, h.1)
                            < cached->0.len() {
                            r matches TokenStep::Decided(x) && decides(
                                self@,
                                token@,
                                cached,
                                x@,
                            )
                        } else {
                            r matches TokenStep::Fetch(u) && u@ == url
                        },
                    },
                }
            }),
            ({
                let header = header_outcome(token_header(token@));
                let cached = match cache {
                    Some(k) => Some(keys_of(k@)),
                    None => None,
                };
                r is Fetch <==> header is Ok && self@.jwks is Remote && must_fetch(
                    cached,
                    header->Ok_0.1,
                )
            }),
    {
        let header = match check_header(token) {
            Ok(h) => h,
            Err(d) => {
                return TokenStep::Decided(d);
            },
        };
        match &self.jwks {
            JwksSource::Static(set) => TokenStep::Decided(self.authorize(token, Some(set))),
            JwksSource::Remote(url) => {
                match cache {
                    Some(set) => {
                        if lookup(set, &header.kid).is_some() {
                            return TokenStep::Decided(self.authorize(token, Some(set)));
                        }
                    },
                    None => {},
                }
                TokenStep::Fetch(url.clone())
            },
        }
    }
}

/// The keys that a fetch brings, where it brings any.
pub open spec fn fetched(success: bool, body: Seq<char>) -> Option<Seq<KeyView>> {
    match jwks_keys(body) {
        Ok(keys) => if success {
            Some(keys)
        } else {
            None
        },
        Err(_) => None,
    }
}

/// Read what a JWKS endpoint answered: `success` and `status` are the answer's status, `body` its
/// text, which is not looked at where the endpoint failed.
pub fn fetched_jwks(url: &str, success: bool, status: &str, body: &str) -> (r: Result<
    Vec<SigningKey>,
    String,
>)
    ensures
        match r {
            Ok(keys) => success && jwks_keys(body@) == Ok::<Seq<KeyView>, Seq<char>>(
                keys_of(keys@),
            ),
            Err(e) => if !success {
                e@ == "JWKS endpoint '"@ + url@ + "' returned HTTP "@ + status@
            } else {
                jwks_keys(body@) is Err && e@ == "JWKS from '"@ + url@
                    + "' is not a valid JWKS document: error decoding response body"@
            },
        },
        match r {
            Ok(keys) => fetched(success, body@) == Some(keys_of(keys@)),
            Err(_) => fetched(success, body@) is None,
        },
{
    if !success {
        return Err(text::text4("JWKS endpoint '", url, "' returned HTTP ", status));
    }
    match parse_jwks(body) {
        Ok(keys) => Ok(keys),
        Err(_) => Err(
            text::text3(
                "JWKS from '",
                url,
                "' is not a valid JWKS document: error decoding response body",
            ),
        ),
    }
}

// ---- the guard ----------------------------------------------------------------------------------

/// The resolved guard.
pub enum AdminGate {
    /// No authentication: development only.
    DevOpen,
    /// Gating is required and nothing is configured.
    Unconfigured,
    /// A static secret in a header.
    ApiKey(AdminKeyGate),
    /// Bearer tokens.
    Oidc(OidcVerifier),
}

/// The contents of an [`AdminGate`].
pub enum GateView {
    DevOpen,
    Unconfigured,
    ApiKey(AdminKeyGateView),
    Oidc(OidcVerifierView),
}

impl View for AdminGate {
    type V = GateView;

    open spec fn view(&self) -> GateView {
        match self {
            AdminGate::DevOpen => GateView::DevOpen,
            AdminGate::Unconfigured => GateView::Unconfigured,
            AdminGate::ApiKey(g) => GateView::ApiKey(g@),
            AdminGate::Oidc(v) => GateView::Oidc(v@),
        }
    }
}

/// The static-secret guard that a configuration gives, for a scheme.
pub open spec fn key_gate(cfg: AdminAuthView, scheme_raw: Seq<char>, to: sources::Resolution) -> Result<
    GateView,
    Seq<char>,
> {
    let word = text::lowered(scheme_raw);
    if word != "apikey"@ && word != "bearer"@ {
        Err("sutra.admin.auth.scheme is '"@ + word + "'; must be apikey or bearer"@)
    } else {
        match cfg.auth_key_ref {
            None => Err(
                "sutra.admin.auth.scheme is set but sutra.admin.auth.key-ref is missing"@,
            ),
            Some(key_ref) => match to(key_ref) {
                Err(e) => Err(
                    "sutra.admin.auth.key-ref '"@ + key_ref + "' did not resolve: "@ + e,
                ),
                Ok(v) => if text::trimmed(v).len() == 0 {
                    Err("sutra.admin.auth.key-ref resolved to an empty secret"@)
                } else {
                    let scheme = if word == "apikey"@ {
                        InboundScheme::ApiKey
                    } else {
                        InboundScheme::Bearer
                    };
                    Ok(
                        GateView::ApiKey(
                            AdminKeyGateView {
                                scheme,
                                header: match cfg.auth_header {
                                    Some(h) => h,
                                    None => if scheme == InboundScheme::ApiKey {
                                        DEFAULT_APIKEY_HEADER@
                                    } else {
                                        DEFAULT_BEARER_HEADER@
                                    },
                                },
                                expected: text::trimmed(v),
                            },
                        ),
                    )
                },
            },
        }
    }
}

/// The guard that a configuration gives. The development flag comes first, then a static secret,
/// then bearer tokens; without any of them the surface is closed.
pub open spec fn gate_of(cfg: AdminAuthView, to: sources::Resolution) -> Result<GateView, Seq<char>> {
    if cfg.dev_disabled {
        Ok(GateView::DevOpen)
    } else {
        match cfg.auth_scheme {
            Some(scheme) => key_gate(cfg, scheme, to),
            None => if cfg.issuer is Some && cfg.audience is Some && cfg.jwks is Some {
                match oidc_verifier(
                    cfg.issuer->0,
                    cfg.audience->0,
                    cfg.jwks->0,
                    cfg.role_claim,
                    cfg.required_role,
                    to,
                ) {
                    Ok(v) => Ok(GateView::Oidc(v)),
                    Err(e) => Err(e),
                }
            } else {
                Ok(GateView::Unconfigured)
            },
        }
    }
}

/// The surface is open to everyone only where the development flag is set.
pub proof fn open_only_by_the_flag(cfg: AdminAuthView, to: sources::Resolution)
    ensures
        gate_of(cfg, to) == Ok::<GateView, Seq<char>>(GateView::DevOpen) <==> cfg.dev_disabled,
{
}

/// A static-secret guard never expects an empty secret, so a request without the header is never let
/// in, and neither is one with a blank header.
pub proof fn blank_is_never_the_secret(cfg: AdminAuthView, to: sources::Resolution, g: AdminKeyGateView)
    requires
        gate_of(cfg, to) == Ok::<GateView, Seq<char>>(GateView::ApiKey(g)),
    ensures
        g.expected.len() > 0,
        !g.admits(None),
        !g.admits(Some(Seq::empty())),
{
    assert(text::trimmed_end(Seq::<char>::empty()) =~= Seq::empty());
    assert(text::trimmed(Seq::<char>::empty()) =~= Seq::empty());
}

impl AdminGate {
    /// Resolve the guard from the configuration; `resolve` resolves references. An unusable
    /// configuration is an error, which refuses the boot.
    pub fn from_config<R: Fn(&str) -> Result<String, String>>(
        cfg: &AdminAuthConfig,
        resolve: &R,
    ) -> (r: Result<AdminGate, String>)
        requires
            forall|s: &str| call_requires(resolve, (s,)),
        ensures
            forall|to: sources::Resolution| #[trigger]
                sources::resolves(*resolve, to) ==> match r {
                    Ok(g) => gate_of(cfg@, to) == Ok::<GateView, Seq<char>>(g@),
                    Err(e) => gate_of(cfg@, to) == Err::<GateView, Seq<char>>(e@),
                },
    {
        if cfg.dev_disabled {
            return Ok(AdminGate::DevOpen);
        }
        match &cfg.auth_scheme {
            Some(scheme_raw) => {
                let word = text::to_lower(scheme_raw);
                let scheme = if text::same(&word, "apikey") {
                    InboundScheme::ApiKey
                } else if text::same(&word, "bearer") {
                    InboundScheme::Bearer
                } else {
                    return Err(
                        text::text3(
                            "sutra.admin.auth.scheme is '",
                            &word,
                            "'; must be apikey or bearer",
                        ),
                    );
                };
                let key_ref = match &cfg.auth_key_ref {
                    Some(k) => k,
                    None => {
                        return Err(
                            "sutra.admin.auth.scheme is set but sutra.admin.auth.key-ref is missing".to_owned(),
                        );
                    },
                };
                let expected = match resolve(key_ref.as_str()) {
                    Ok(v) => text::trim(&v),
                    Err(e) => {
                        return Err(
                            text::text4(
                                "sutra.admin.auth.key-ref '",
                                key_ref,
                                "' did not resolve: ",
                                &e,
                            ),
                        );
                    },
                };
                if expected.as_str().is_empty() {
                    return Err(
                        "sutra.admin.auth.key-ref resolved to an empty secret".to_owned(),
                    );
                }
                let header = match &cfg.auth_header {
                    Some(h) => h.clone(),
                    None => match scheme {
                        InboundScheme::ApiKey => DEFAULT_APIKEY_HEADER.to_owned(),
                        InboundScheme::Bearer => DEFAULT_BEARER_HEADER.to_owned(),
                    },
                };
                Ok(AdminGate::ApiKey(AdminKeyGate { scheme, header, expected }))
            },
            None => match (&cfg.issuer, &cfg.audience, &cfg.jwks) {
                (Some(issuer), Some(audience), Some(jwks)) => {
                    match OidcVerifier::build(
                        issuer,
                        audience,
                        jwks,
                        &cfg.role_claim,
                        &cfg.required_role,
                        resolve,
                    ) {
                        Ok(v) => Ok(AdminGate::Oidc(v)),
                        Err(e) => Err(e),
                    }
                },
                _ => Ok(AdminGate::Unconfigured),
            },
        }
    }

    /// The record of the guard's posture for the boot log, and whether it is a warning.
    pub fn posture(&self) -> (r: (bool, &'static str))
        ensures
            r.0 == (self@ is DevOpen),
            r.1@ == match self@ {
                GateView::DevOpen => "SUTRA.ADMIN.OIDC_DISABLED — /admin/* is served WITHOUT authentication (sutra.admin.oidc.dev-disabled=true). Dev / docker-compose only; NEVER production."@,
                GateView::Unconfigured => "/admin/* is UNCONFIGURED (no sutra.admin.auth.* and no sutra.admin.oidc.*) — the surface is closed (503) until an auth key/secret or OIDC is configured"@,
                GateView::ApiKey(_) => "/admin/* auth-key gating active (static key/secret in a header — the channels' inbound-auth model)"@,
                GateView::Oidc(_) => "/admin/* OIDC gating active (bearer JWT: issuer + audience + JWKS signature + required admin scope)"@,
            },
    {
        match self {
            AdminGate::DevOpen => (
                true,
                "SUTRA.ADMIN.OIDC_DISABLED — /admin/* is served WITHOUT authentication (sutra.admin.oidc.dev-disabled=true). Dev / docker-compose only; NEVER production.",
            ),
            AdminGate::Unconfigured => (
                false,
                "/admin/* is UNCONFIGURED (no sutra.admin.auth.* and no sutra.admin.oidc.*) — the surface is closed (503) until an auth key/secret or OIDC is configured",
            ),
            AdminGate::ApiKey(_) => (
                false,
                "/admin/* auth-key gating active (static key/secret in a header — the channels' inbound-auth model)",
            ),
            AdminGate::Oidc(_) => (
                false,
                "/admin/* OIDC gating active (bearer JWT: issuer + audience + JWKS signature + required admin scope)",
            ),
        }
    }
}

/// The token in an `Authorization` header's value: what follows a `bearer` scheme in either case of
/// letters, where it is not blank.
pub open spec fn bearer(value: Option<Seq<char>>) -> Option<Seq<char>> {
    match value {
        None => None,
        Some(v) => match text::cut(v, ' ') {
            None => None,
            Some(parts) => if text::lowered(parts.0) == "bearer"@ && text::trimmed(parts.1).len()
                > 0 {
                Some(text::trimmed(parts.1))
            } else {
                None
            },
        },
    }
}

/// The bearer token in an `Authorization` header's value.
pub fn bearer_token(value: &Option<String>) -> (r: Option<String>)
    ensures
        sources::opt(r) == bearer(sources::opt(*value)),
{
    match value {
        None => None,
        Some(v) => match text::split_once(v, ' ') {
            None => None,
            Some((scheme, token)) => {
                let t = text::trim(&token);
                if text::same(&text::to_lower(&scheme), "bearer") && !t.as_str().is_empty() {
                    Some(t)
                } else {
                    None
                }
            },
        },
    }
}

/// How a request is answered at the guard.
pub enum GateAnswer {
    /// Hand the request on.
    Pass,
    /// Refuse it with a status and a document; an unauthorized answer names the bearer scheme.
    Deny(u16, Json),
    /// Verify this token first.
    Verify(String),
}

/// The contents of a [`GateAnswer`].
pub enum AnswerView {
    Pass,
    Deny(u16, JsonView),
    Verify(Seq<char>),
}

impl View for GateAnswer {
    type V = AnswerView;

    open spec fn view(&self) -> AnswerView {
        match self {
            GateAnswer::Pass => AnswerView::Pass,
            GateAnswer::Deny(s, j) => AnswerView::Deny(*s, j@),
            GateAnswer::Verify(t) => AnswerView::Verify(t@),
        }
    }
}

/// A refusal document.
pub open spec fn refusal(error: Seq<char>, reason: Seq<char>) -> JsonView {
    JsonView::empty().with("error"@, JsonView::Text(error)).with("reason"@, JsonView::Text(reason))
}

/// The answer to a request without a usable identity.
pub open spec fn unauthenticated_answer(reason: Seq<char>) -> AnswerView {
    AnswerView::Deny(401, refusal("unauthorized"@, reason))
}

/// The answer to a request without the required role.
pub open spec fn forbidden_answer() -> AnswerView {
    AnswerView::Deny(
        403,
        refusal("forbidden"@, "the presented token lacks the required admin scope"@),
    )
}

/// The answer of a surface that is not configured.
pub open spec fn unconfigured_answer() -> AnswerView {
    AnswerView::Deny(
        503,
        refusal(
            "admin surface unavailable"@,
            "admin gating is required but not configured — set an auth key/secret (sutra.admin.auth.{scheme,key-ref}) or OIDC (sutra.admin.oidc.{issuer,audience,jwks}), or sutra.admin.oidc.dev-disabled=true for a dev deployment"@,
        ),
    )
}

/// How a guard answers a request with these header values: that of the guard's own header, and that of
/// `Authorization`.
pub open spec fn gate_answer(
    gate: GateView,
    key_header: Option<Seq<char>>,
    authorization: Option<Seq<char>>,
) -> AnswerView {
    match gate {
        GateView::DevOpen => AnswerView::Pass,
        GateView::Unconfigured => unconfigured_answer(),
        GateView::ApiKey(g) => if g.admits(key_header) {
            AnswerView::Pass
        } else {
            unauthenticated_answer("missing or invalid admin auth key/secret"@)
        },
        GateView::Oidc(_) => match bearer(authorization) {
            Some(token) => AnswerView::Verify(token),
            None => unauthenticated_answer(
                "missing or malformed 'Authorization: Bearer' header"@,
            ),
        },
    }
}

/// How a decision about a token is answered.
pub open spec fn decision_answer(d: DecisionView) -> AnswerView {
    match d {
        DecisionView::Authorized => AnswerView::Pass,
        DecisionView::Unauthenticated(reason) => unauthenticated_answer(reason),
        DecisionView::Forbidden => forbidden_answer(),
    }
}

/// A request without credentials is handed on only by the open guard.
pub proof fn no_credentials_no_entry(gate: GateView)
    ensures
        gate_answer(gate, None, None) is Pass <==> gate is DevOpen,
{
}

fn refusal_json(error: &str, reason: &str) -> (r: Json)
    ensures
        r@ == refusal(error@, reason@),
{
    Json::object().with("error", Json::text(error)).with("reason", Json::text(reason))
}

/// The answer to a request without a usable identity.
pub fn unauthenticated(reason: &str) -> (r: GateAnswer)
    ensures
        r@ == unauthenticated_answer(reason@),
{
    GateAnswer::Deny(401, refusal_json("unauthorized", reason))
}

/// The answer to a request without the required role.
pub fn forbidden() -> (r: GateAnswer)
    ensures
        r@ == forbidden_answer(),
{
    GateAnswer::Deny(
        403,
        refusal_json("forbidden", "the presented token lacks the required admin scope"),
    )
}

/// The answer of a surface that is not configured.
pub fn unconfigured_response() -> (r: GateAnswer)
    ensures
        r@ == unconfigured_answer(),
{
    GateAnswer::Deny(
        503,
        refusal_json(
            "admin surface unavailable",
            "admin gating is required but not configured — set an auth key/secret (sutra.admin.auth.{scheme,key-ref}) or OIDC (sutra.admin.oidc.{issuer,audience,jwks}), or sutra.admin.oidc.dev-disabled=true for a dev deployment",
        ),
    )
}

/// Answer a request at the guard, from the value of the guard's own header and that of
/// `Authorization`.
pub fn admin_gate(
    gate: &AdminGate,
    key_header: &Option<String>,
    authorization: &Option<String>,
) -> (r: GateAnswer)
    ensures
        r@ == gate_answer(gate@, sources::opt(*key_header), sources::opt(*authorization)),
{
    match gate {
        AdminGate::DevOpen => GateAnswer::Pass,
        AdminGate::Unconfigured => unconfigured_response(),
        AdminGate::ApiKey(g) => {
            if g.authorized(key_header) {
                GateAnswer::Pass
            } else {
                unauthenticated("missing or invalid admin auth key/secret")
            }
        },
        AdminGate::Oidc(_) => match bearer_token(authorization) {
            Some(token) => GateAnswer::Verify(token),
            None => unauthenticated("missing or malformed 'Authorization: Bearer' header"),
        },
    }
}

/// Answer a request by the decision about its token.
pub fn answer_decision(d: &AdminDecision) -> (r: GateAnswer)
    ensures
        r@ == decision_answer(d@),
{
    match d {
        AdminDecision::Authorized => GateAnswer::Pass,
        AdminDecision::Unauthenticated(reason) => unauthenticated(reason),
        AdminDecision::Forbidden => forbidden(),
    }
}

// ---- the deploy endpoint's parameters ----------------------------------------------------------

/// How a deploy request is carried out.
pub enum DeployMode {
    Sync,
    /// Deferred, with the completion sinks to notify.
    Async(Vec<String>),
}

/// The value of a parameter, where it is not empty.
pub open spec fn sink(params: Seq<(Seq<char>, Seq<char>)>, name: Seq<char>) -> Seq<Seq<char>> {
    match keyed::lookup(params, name) {
        Some(v) => if v.len() > 0 {
            seq![v]
        } else {
            Seq::empty()
        },
        None => Seq::empty(),
    }
}

/// The sinks of a request that does not wait, and none for one that does.
pub open spec fn deferred_sinks(params: Seq<(Seq<char>, Seq<char>)>) -> Option<Seq<Seq<char>>> {
    if keyed::lookup(params, "mode"@) == Some("async"@) {
        Some(sink(params, "callback"@) + sink(params, "notify"@))
    } else {
        None
    }
}

/// Read a deploy request's parameters: `mode=async` defers the flip and collects the callback and
/// the topic; anything else is synchronous.
pub fn deploy_mode(params: &TextMap<String>) -> (r: DeployMode)
    ensures
        match r {
            DeployMode::Async(sinks) => keyed::lookup(params@, "mode"@) == Some("async"@)
                && text::texts(sinks@) == sink(params@, "callback"@) + sink(params@, "notify"@),
            DeployMode::Sync => keyed::lookup(params@, "mode"@) != Some("async"@),
        },
        match r {
            DeployMode::Async(sinks) => deferred_sinks(params@) == Some(text::texts(sinks@)),
            DeployMode::Sync => deferred_sinks(params@) is None,
        },
{
    let deferred = match params.get("mode") {
        Some(m) => text::same(m, "async"),
        None => false,
    };
    if !deferred {
        return DeployMode::Sync;
    }
    let mut sinks: Vec<String> = Vec::new();
    match params.get("callback") {
        Some(v) => {
            if !v.as_str().is_empty() {
                sinks.push(v.clone());
            }
        },
        None => {},
    }
    assert(text::texts(sinks@) =~= sink(params@, "callback"@));
    match params.get("notify") {
        Some(v) => {
            if !v.as_str().is_empty() {
                sinks.push(v.clone());
            }
        },
        None => {},
    }
    assert(text::texts(sinks@) =~= sink(params@, "callback"@) + sink(params@, "notify"@));
    DeployMode::Async(sinks)
}

} // verus!
