//! Who is let in to the admin surface, by what, and what the others are answered.

use vstd::prelude::*;

use crate::admin;
use crate::admin::{
    AdminKeyGateView, AnswerView, ClaimView, DecisionView, GateView, InboundScheme, JwksView,
    KeyView, OidcVerifierView, RoleClaim, TokenProblem,
};
use crate::config::AdminAuthView;
use crate::json;
use crate::json::JsonView;
use crate::keyed;
use crate::sources;
use crate::text;

verus! {

// ---- static secrets ----------------------------------------------------------------------------

/// A static secret lets in exactly the header that holds it, trimmed; as a bearer secret the word in
/// front may stand there, in either case of letters.
pub proof fn only_the_secret_lets_in(g: AdminKeyGateView, value: Option<Seq<char>>)
    ensures
        value is None ==> !g.admits(value),
        g.scheme == InboundScheme::ApiKey && value is Some ==> (g.admits(value) <==> text::trimmed(
            value->0,
        ) == g.expected),
        g.scheme == InboundScheme::Bearer && value is Some ==> ({
            let v = text::trimmed(value->0);
            let worded = v.len() >= 7 && text::lowered(v.take(7)) == "bearer "@;
            g.admits(value) <==> (if worded {
                text::trimmed(v.skip(7))
            } else {
                v
            }) == g.expected
        }),
{
}

/// A static guard is built exactly where the scheme is one of the two, in either case of letters, a
/// secret is named, the name resolves and the secret is not blank. It then expects that secret, in
/// the header named or in the scheme's own.
pub proof fn a_static_guard_expects_its_secret(
    cfg: AdminAuthView,
    scheme: Seq<char>,
    to: sources::Resolution,
)
    ensures
        ({
            let word = text::lowered(scheme);
            let known = word == "apikey"@ || word == "bearer"@;
            let secret = to(cfg.auth_key_ref->0);
            match admin::key_gate(cfg, scheme, to) {
                Ok(GateView::ApiKey(g)) => {
                    &&& known && cfg.auth_key_ref is Some && secret is Ok
                    &&& g.expected == text::trimmed(secret->Ok_0) && g.expected.len() > 0
                    &&& g.scheme == InboundScheme::ApiKey <==> word == "apikey"@
                    &&& cfg.auth_header matches Some(h) ==> g.header == h
                    &&& cfg.auth_header is None && word == "apikey"@ ==> g.header == "X-API-Key"@
                    &&& cfg.auth_header is None && word == "bearer"@ ==> g.header
                        == "authorization"@
                },
                Ok(_) => false,
                Err(_) => !known || cfg.auth_key_ref is None || secret is Err || text::trimmed(
                    secret->Ok_0,
                ).len() == 0,
            }
        }),
{
    reveal_strlit("apikey");
    reveal_strlit("bearer");
    assert("apikey"@[0] == 'a' && "bearer"@[0] == 'b');
}

/// Which guard stands is decided in order: the flag for development opens it, a scheme makes it a
/// static secret, a complete identity provider makes it that, and else it is closed.
pub proof fn the_guard_is_chosen_in_order(cfg: AdminAuthView, to: sources::Resolution)
    ensures
        ({
            let g = admin::gate_of(cfg, to);
            &&& cfg.dev_disabled ==> g == Ok::<GateView, Seq<char>>(GateView::DevOpen)
            &&& !cfg.dev_disabled && cfg.auth_scheme is Some ==> g == admin::key_gate(
                cfg,
                cfg.auth_scheme->0,
                to,
            )
            &&& !cfg.dev_disabled && cfg.auth_scheme is None && (cfg.issuer is None
                || cfg.audience is None || cfg.jwks is None) ==> g == Ok::<GateView, Seq<char>>(
                GateView::Unconfigured,
            )
            &&& !cfg.dev_disabled && cfg.auth_scheme is None && cfg.issuer is Some
                && cfg.audience is Some && cfg.jwks is Some ==> match g {
                Ok(GateView::Oidc(v)) => v.issuer == cfg.issuer->0 && v.audience == cfg.audience->0
                    && v.role_claim == cfg.role_claim && v.required_role == cfg.required_role
                    && to(cfg.jwks->0) is Ok && admin::jwks_of(to(cfg.jwks->0)->Ok_0) == Ok::<
                    JwksView,
                    Seq<char>,
                >(v.jwks),
                Ok(_) => false,
                Err(_) => to(cfg.jwks->0) is Err || admin::jwks_of(to(cfg.jwks->0)->Ok_0) is Err,
            }
        }),
{
}

// ---- tokens ------------------------------------------------------------------------------------

/// Keys come from an address where the text is one, else from the document itself, which must hold
/// at least one.
pub proof fn keys_come_from_an_address_or_a_document(value: Seq<char>)
    ensures
        ({
            let v = text::trimmed(value);
            let address = text::begins(v, "http://"@) || text::begins(v, "https://"@);
            match admin::jwks_of(value) {
                Ok(JwksView::Remote(url)) => address && url == v,
                Ok(JwksView::Static(keys)) => !address && keys.len() > 0 && admin::jwks_keys(v)
                    == Ok::<Seq<KeyView>, Seq<char>>(keys),
                Err(_) => !address && (admin::jwks_keys(v) is Err || admin::jwks_keys(
                    v,
                )->Ok_0.len() == 0),
            }
        }),
{
}

/// The key of a token is the first that has the token's key id; a token without one takes the only
/// key, and none where there are more.
pub proof fn a_token_selects_its_key(keys: Seq<KeyView>, kid: Option<Seq<char>>)
    ensures
        ({
            let at = admin::selected(keys, kid);
            &&& 0 <= at <= keys.len()
            &&& kid is Some ==> {
                &&& at < keys.len() ==> keys[at].0 == kid
                &&& forall|i: int| 0 <= i < at ==> (#[trigger] keys[i]).0 != kid
            }
            &&& kid is None ==> (at < keys.len() <==> keys.len() == 1)
        }),
    decreases keys.len(),
{
    if kid is Some && keys.len() > 0 && keys[0].0 != kid {
        let rest = keys.drop_first();
        a_token_selects_its_key(rest, kid);
        let at = admin::selected(rest, kid);
        assert forall|i: int| 0 <= i < at + 1 implies (#[trigger] keys[i]).0 != kid by {
            if i > 0 {
                assert(rest[i - 1] == keys[i]);
            }
        }
    }
}

/// A token goes on to verification exactly where its header can be read and names one of the nine
/// public-key algorithms; what goes on is the header as it was read.
pub proof fn only_public_key_tokens_go_on(header: Option<(Seq<char>, Option<Seq<char>>)>)
    ensures
        match admin::header_outcome(header) {
            Ok(h) => header == Some(h) && (h.0 == "RS256"@ || h.0 == "RS384"@ || h.0 == "RS512"@
                || h.0 == "PS256"@ || h.0 == "PS384"@ || h.0 == "PS512"@ || h.0 == "ES256"@ || h.0
                == "ES384"@ || h.0 == "EdDSA"@),
            Err(d) => d is Unauthenticated && (header is None || !(header->Some_0.0 == "RS256"@
                || header->Some_0.0 == "RS384"@ || header->Some_0.0 == "RS512"@ || header->Some_0.0 == "PS256"@
                || header->Some_0.0 == "PS384"@ || header->Some_0.0 == "PS512"@ || header->Some_0.0 == "ES256"@
                || header->Some_0.0 == "ES384"@ || header->Some_0.0 == "EdDSA"@)),
        },
{
}

/// A claim carries a role as one of its words or as one of its items; a claim of another shape
/// carries none.
pub proof fn a_claim_carries_its_roles(claim: ClaimView, role: Seq<char>)
    ensures
        match claim {
            ClaimView::Text(s) => admin::has_role(claim, role) <==> text::words(s).contains(role),
            ClaimView::List(items) => admin::has_role(claim, role) <==> exists|i: int|
                0 <= i < items.len() && #[trigger] items[i] == Some(role),
            ClaimView::Other => !admin::has_role(claim, role),
        },
        admin::claimed(claim, role) == DecisionView::Authorized <==> admin::has_role(claim, role),
        admin::claimed(claim, role) == DecisionView::Forbidden <==> !admin::has_role(claim, role),
{
}

/// A token that does not verify, whatever the reason, is not an identity; one whose claim lacks the
/// role is refused as such. A decision other than entry says which.
pub proof fn a_decision_says_what_is_missing(
    v: OidcVerifierView,
    token: Seq<char>,
    keys: Option<Seq<KeyView>>,
    d: DecisionView,
)
    requires
        admin::decides(v, token, keys, d),
    ensures
        admin::token_header(token) is None ==> d is Unauthenticated,
        keys is None ==> d is Unauthenticated,
        keys is Some && admin::token_header(token) is Some && admin::selected(
            keys->0,
            admin::token_header(token)->Some_0.1,
        ) >= keys->0.len() ==> d is Unauthenticated,
        d == DecisionView::Forbidden ==> admin::token_header(token) is Some && keys is Some && ({
            let h = admin::token_header(token)->0;
            let at = admin::selected(keys->0, h.1);
            at < keys->0.len() && admin::fits(keys->0[at].1, h.0) && (admin::vouched(
                token,
                keys->0[at].1,
                h.0,
                v.issuer,
                v.audience,
                seq!["exp"@, "iss"@, "aud"@],
                v.role_claim,
            ) matches Some(claim) && !admin::has_role(claim, v.required_role))
        }),
        d == DecisionView::Authorized ==> admin::token_header(token) is Some && keys is Some && ({
            let h = admin::token_header(token)->0;
            let at = admin::selected(keys->0, h.1);
            at < keys->0.len() && admin::fits(keys->0[at].1, h.0) && (admin::vouched(
                token,
                keys->0[at].1,
                h.0,
                v.issuer,
                v.audience,
                seq!["exp"@, "iss"@, "aud"@],
                v.role_claim,
            ) matches Some(claim) && admin::has_role(claim, v.required_role))
        }),
{
}

/// An octet key signs by its algorithm only where it is long enough; any other usable key fits.
pub proof fn a_short_octet_key_fits_nothing_of_its_kind(jwk: Seq<char>, alg: Seq<char>)
    ensures
        admin::fits(jwk, alg) ==> admin::usable_key(jwk),
        alg == "EdDSA"@ && (admin::octet_key_len(jwk) matches Some(n) && n < 32) ==> !admin::fits(
            jwk,
            alg,
        ),
        admin::usable_key(jwk) && alg != "EdDSA"@ ==> admin::fits(jwk, alg),
        admin::usable_key(jwk) && admin::octet_key_len(jwk) is None ==> admin::fits(jwk, alg),
{
}

/// A bearer token is what follows the word and one space, trimmed, the word in either case of
/// letters; without the word, or with nothing behind it, there is none.
pub proof fn a_bearer_token_follows_its_word(word: Seq<char>, rest: Seq<char>)
    requires
        !word.contains(' '),
    ensures
        ({
            let b = admin::bearer(Some(word + seq![' '] + rest));
            &&& text::lowered(word) == "bearer"@ && text::trimmed(rest).len() > 0 ==> b == Some(
                text::trimmed(rest),
            )
            &&& text::lowered(word) != "bearer"@ || text::trimmed(rest).len() == 0 ==> b is None
            &&& admin::bearer(Some(word)) is None
            &&& admin::bearer(None) is None
        }),
{
    crate::text_laws::a_text_is_cut_at_the_first(word, rest, ' ');
}

// ---- answers -----------------------------------------------------------------------------------

/// An open guard lets everybody in, an unconfigured one nobody; a static one whoever presents its
/// secret in its header; an identity provider's is decided by the bearer token. Whoever is refused
/// for want of an identity is answered so, and whoever finds no guard is told that there is none.
pub proof fn a_guard_answers_by_what_it_guards_with(
    gate: GateView,
    key_header: Option<Seq<char>>,
    authorization: Option<Seq<char>>,
)
    ensures
        ({
            let a = admin::gate_answer(gate, key_header, authorization);
            match gate {
                GateView::DevOpen => a == AnswerView::Pass,
                GateView::Unconfigured => a matches AnswerView::Deny(code, _) && code == 503,
                GateView::ApiKey(g) => if g.admits(key_header) {
                    a == AnswerView::Pass
                } else {
                    a matches AnswerView::Deny(code, _) && code == 401
                },
                GateView::Oidc(_) => match admin::bearer(authorization) {
                    Some(token) => a == AnswerView::Verify(token),
                    None => a matches AnswerView::Deny(code, _) && code == 401,
                },
            }
        }),
{
}

/// A decision for entry passes, one without an identity is answered as such with its reason, and one
/// without the role is answered as forbidden.
pub proof fn a_decision_is_answered_as_it_is(d: DecisionView)
    ensures
        match d {
            DecisionView::Authorized => admin::decision_answer(d) == AnswerView::Pass,
            DecisionView::Unauthenticated(reason) => admin::decision_answer(
                d,
            ) matches AnswerView::Deny(code, doc) && code == 401 && doc.text_member("reason"@)
                == Some(reason) && doc.text_member("error"@) == Some("unauthorized"@),
            DecisionView::Forbidden => admin::decision_answer(d) matches AnswerView::Deny(code, doc)
                && code == 403 && doc.text_member("error"@) == Some("forbidden"@),
        },
{
    match d {
        DecisionView::Unauthenticated(reason) => {
            a_refusal_says_its_reason("unauthorized"@, reason);
        },
        _ => {
            a_refusal_says_its_reason(
                "forbidden"@,
                "the presented token lacks the required admin scope"@,
            );
        },
    }
}

/// A refusal says what it is and why.
pub proof fn a_refusal_says_its_reason(error: Seq<char>, reason: Seq<char>)
    ensures
        admin::refusal(error, reason).text_member("error"@) == Some(error),
        admin::refusal(error, reason).text_member("reason"@) == Some(reason),
{
    reveal_strlit("error");
    reveal_strlit("reason");
    json::members_with(JsonView::empty(), "error"@, JsonView::Text(error));
    let j = JsonView::empty().with("error"@, JsonView::Text(error));
    json::members_with(j, "reason"@, JsonView::Text(reason));
}

/// A sink is named exactly where the request has the parameter and it is not empty.
pub proof fn a_sink_is_named_by_its_parameter(
    params: Seq<(Seq<char>, Seq<char>)>,
    name: Seq<char>,
)
    ensures
        match keyed::lookup(params, name) {
            Some(v) => if v.len() > 0 {
                admin::sink(params, name) == seq![v]
            } else {
                admin::sink(params, name).len() == 0
            },
            None => admin::sink(params, name).len() == 0,
        },
{
}

/// A request does not wait exactly where its mode says so; its callback is told before its notify
/// sink, each where it is named.
pub proof fn a_deferred_request_names_its_sinks(params: Seq<(Seq<char>, Seq<char>)>)
    ensures
        admin::deferred_sinks(params) is Some <==> keyed::lookup(params, "mode"@) == Some(
            "async"@,
        ),
        admin::deferred_sinks(params) matches Some(s) ==> {
            let c = keyed::lookup(params, "callback"@);
            let n = keyed::lookup(params, "notify"@);
            let named = c is Some && c->Some_0.len() > 0;
            let noted = n is Some && n->Some_0.len() > 0;
            &&& named ==> s[0] == c->Some_0
            &&& noted ==> s.last() == n->Some_0
            &&& s.len() == (if named {
                1int
            } else {
                0
            }) + (if noted {
                1int
            } else {
                0
            })
        },
{
}

/// Keys are fetched exactly where none is at hand that answers for the token: no keys at all, none
/// with the token's key id, or more or fewer than one for a token without an id.
pub proof fn keys_are_fetched_where_none_answers(
    cached: Option<Seq<KeyView>>,
    kid: Option<Seq<char>>,
)
    ensures
        cached is None ==> admin::must_fetch(cached, kid),
        cached is Some && kid is Some ==> (admin::must_fetch(cached, kid) <==> forall|i: int|
            0 <= i < cached->Some_0.len() ==> (#[trigger] cached->Some_0[i]).0 != kid),
        cached is Some && kid is None ==> (admin::must_fetch(cached, kid) <==> cached->Some_0.len()
            != 1),
{
    match cached {
        Some(keys) => {
            a_token_selects_its_key(keys, kid);
        },
        None => {},
    }
}

/// A fetch brings the keys of the document that it got, and none where it failed or got none.
pub proof fn a_fetch_brings_the_documents_keys(success: bool, body: Seq<char>)
    ensures
        !success ==> admin::fetched(success, body) is None,
        success ==> match admin::jwks_keys(body) {
            Ok(keys) => admin::fetched(success, body) == Some(keys),
            Err(_) => admin::fetched(success, body) is None,
        },
{
}

/// The word in front of a bearer secret is taken off, in either case of letters, with the white space
/// behind it; a value that does not begin with it stays as it is.
pub proof fn the_word_is_taken_off_a_bearer_secret(
    word: Seq<char>,
    rest: Seq<char>,
    value: Seq<char>,
)
    ensures
        word.len() == 7 && text::lowered(word) == "bearer "@ ==> admin::bearer_stripped(word + rest)
            == text::trimmed(rest),
        value.len() < 7 ==> admin::bearer_stripped(value) == value,
        value.len() >= 7 && text::lowered(value.take(7)) != "bearer "@ ==> admin::bearer_stripped(
            value,
        ) == value,
{
    if word.len() == 7 {
        assert((word + rest).take(7) =~= word);
        assert((word + rest).skip(7) =~= rest);
    }
}

/// A verifier checks for the issuer, the audience, the claim and the role that it is built for, with
/// the keys that its reference resolves to; it is refused exactly where these cannot be had.
pub proof fn a_verifier_checks_for_what_it_is_built_for(
    issuer: Seq<char>,
    audience: Seq<char>,
    jwks_ref: Seq<char>,
    role_claim: Seq<char>,
    required_role: Seq<char>,
    to: sources::Resolution,
)
    ensures
        match admin::oidc_verifier(issuer, audience, jwks_ref, role_claim, required_role, to) {
            Ok(v) => {
                &&& v.issuer == issuer && v.audience == audience
                &&& v.role_claim == role_claim && v.required_role == required_role
                &&& to(jwks_ref) matches Ok(keys) && admin::jwks_of(keys) == Ok::<
                    JwksView,
                    Seq<char>,
                >(v.jwks)
            },
            Err(_) => to(jwks_ref) is Err || admin::jwks_of(to(jwks_ref)->Ok_0) is Err,
        },
{
}

/// What is made of a verification: a claim with the role enters, one without is forbidden, and a
/// token that does not verify is no identity, whatever the reason.
pub proof fn a_verification_is_judged_by_its_claim(
    outcome: Result<RoleClaim, TokenProblem>,
    role: Seq<char>,
)
    ensures
        match outcome {
            Ok(claim) => if admin::has_role(claim@, role) {
                admin::verified_decision(outcome, role) == DecisionView::Authorized
            } else {
                admin::verified_decision(outcome, role) == DecisionView::Forbidden
            },
            Err(_) => admin::verified_decision(outcome, role) is Unauthenticated,
        },
{
}

} // verus!
