//! What holds of every planned deployment.

use vstd::prelude::*;

use crate::assembly::{Answers, LoadedDeployment, OutboundView};
use crate::assembly;
use crate::text;
use crate::transports::ChannelView;
use crate::transports;

verus! {

/// Every channel of a planned deployment is bound to that deployment, whatever its document said.
pub proof fn plans_bind_their_channels(
    d: LoadedDeployment,
    allowed: Seq<Seq<char>>,
    m: Answers,
    i: int,
)
    requires
        assembly::planned(d, allowed, m) is Ok,
        0 <= i < assembly::planned(d, allowed, m)->Ok_0.definitions.len(),
    ensures
        assembly::planned(d, allowed, m)->Ok_0.definitions[i].deployment == d.id@,
{
}

/// No channel of a planned deployment declares a transport that is not permitted.
pub proof fn plans_use_permitted_transports(
    d: LoadedDeployment,
    allowed: Seq<Seq<char>>,
    m: Answers,
    i: int,
)
    requires
        assembly::planned(d, allowed, m) is Ok,
        0 <= i < assembly::planned(d, allowed, m)->Ok_0.definitions.len(),
    ensures
        !transports::forbidden(assembly::planned(d, allowed, m)->Ok_0.definitions[i], allowed),
{
    not_refused_means_none_forbidden(
        assembly::planned(d, allowed, m)->Ok_0.definitions,
        allowed,
        d.id@,
        i,
    );
}

proof fn not_refused_means_none_forbidden(
    defs: Seq<ChannelView>,
    allowed: Seq<Seq<char>>,
    dep: Seq<char>,
    i: int,
)
    requires
        transports::first_refusal(defs, allowed, dep) is None,
        0 <= i < defs.len(),
    ensures
        !transports::forbidden(defs[i], allowed),
    decreases defs.len(),
{
    if i > 0 {
        not_refused_means_none_forbidden(defs.drop_first(), allowed, dep, i - 1);
        assert(defs.drop_first()[i - 1] == defs[i]);
    }
}

/// The outbound channels of a row.
pub open spec fn outbound_count(defs: Seq<ChannelView>) -> nat
    decreases defs.len(),
{
    if defs.len() == 0 {
        0
    } else {
        outbound_count(defs.drop_last()) + if defs.last().outbound {
            1nat
        } else {
            0nat
        }
    }
}

/// Every outbound channel of a planned deployment is resolved: none is left out.
pub proof fn plans_resolve_every_outbound_channel(
    d: LoadedDeployment,
    allowed: Seq<Seq<char>>,
    m: Answers,
)
    requires
        assembly::planned(d, allowed, m) is Ok,
    ensures
        assembly::planned(d, allowed, m)->Ok_0.outbound.len() == outbound_count(
            assembly::planned(d, allowed, m)->Ok_0.definitions,
        ),
{
    resolved_are_counted(assembly::planned(d, allowed, m)->Ok_0.definitions, d.id@, m);
}

proof fn resolved_are_counted(defs: Seq<ChannelView>, dep: Seq<char>, m: Answers)
    requires
        assembly::outbound_planned(defs, dep, m) is Ok,
    ensures
        (assembly::outbound_planned(defs, dep, m)->Ok_0).len() == outbound_count(defs),
    decreases defs.len(),
{
    if defs.len() > 0 {
        resolved_are_counted(defs.drop_last(), dep, m);
        let rest: Seq<OutboundView> = assembly::outbound_planned(defs.drop_last(), dep, m)->Ok_0;
        assert(rest.len() == outbound_count(defs.drop_last()));
    }
}

/// A rule that does not parse refuses the deployment, whatever else it holds.
pub proof fn an_unparsable_rule_refuses_the_deployment(
    d: LoadedDeployment,
    allowed: Seq<Seq<char>>,
    m: Answers,
    at: int,
)
    requires
        0 <= at < d.rules@.len(),
        d.rules@[at].parsed is Err,
        text::finishes(d.rules@[at].id@, ".dmn"@) || text::finishes(
            d.rules@[at].id@,
            ".srl"@,
        ),
    ensures
        assembly::planned(d, allowed, m) is Err,
{
    unparsable_is_refused(d.rules@, d.id@, m, at);
}

proof fn unparsable_is_refused(
    rules: Seq<assembly::RuleArtifact>,
    dep: Seq<char>,
    m: Answers,
    at: int,
)
    requires
        0 <= at < rules.len(),
        rules[at].parsed is Err,
        text::finishes(rules[at].id@, ".dmn"@) || text::finishes(
            rules[at].id@,
            ".srl"@,
        ),
    ensures
        assembly::rules_planned(rules, dep, m) is Err,
    decreases rules.len(),
{
    if at < rules.len() - 1 {
        assert(rules.drop_last()[at] == rules[at]);
        unparsable_is_refused(rules.drop_last(), dep, m, at);
    }
}

/// A redactor that does not compile refuses the deployment.
pub proof fn an_uncompilable_redactor_refuses_the_deployment(
    d: LoadedDeployment,
    allowed: Seq<Seq<char>>,
    m: Answers,
    at: int,
)
    requires
        0 <= at < d.redactors@.len(),
        d.redactors@[at].compiled is Err,
    ensures
        assembly::planned(d, allowed, m) is Err,
{
    uncompilable_is_refused(d.redactors@, d.id@, at);
}

proof fn uncompilable_is_refused(
    redactors: Seq<assembly::RedactorArtifact>,
    dep: Seq<char>,
    at: int,
)
    requires
        0 <= at < redactors.len(),
        redactors[at].compiled is Err,
    ensures
        assembly::redactors_planned(redactors, dep) is Err,
    decreases redactors.len(),
{
    if at < redactors.len() - 1 {
        assert(redactors.drop_last()[at] == redactors[at]);
        uncompilable_is_refused(redactors.drop_last(), dep, at);
    }
}

} // verus!
