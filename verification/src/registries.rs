//! The read-only registries of an activation, built once from its plans and shared by every lane.
//!
//! Active deployments register first, then the draining tail; where two register under one key the
//! later one stands.

use vstd::prelude::*;

use crate::assembly::{DeploymentPlan, OutboundChannel, OutboundView, PlanView, ValidatorView};
use crate::graph::ProcessModule;
use crate::keyed;
use crate::keyed::TextMap;
use crate::text;

verus! {

/// What a row of plans holds.
pub open spec fn plans(v: Seq<&DeploymentPlan>) -> Seq<PlanView> {
    v.map_values(|p: &DeploymentPlan| (*p)@)
}

/// One row of plans behind another.
pub fn joined<'a>(first: &Vec<&'a DeploymentPlan>, second: &Vec<&'a DeploymentPlan>) -> (r: Vec<
    &'a DeploymentPlan,
>)
    ensures
        plans(r@) == plans(first@) + plans(second@),
{
    let ghost a = plans(first@);
    let ghost b = plans(second@);
    let mut out: Vec<&'a DeploymentPlan> = Vec::new();
    let mut i: usize = 0;
    while i < first.len()
        invariant
            i <= first.len(),
            a == plans(first@),
            plans(out@) == a.take(i as int),
        decreases first.len() - i,
    {
        let ghost prior = plans(out@);
        out.push(first[i]);
        assert(plans(out@) =~= prior.push(a[i as int]));
        assert(a.take(i + 1) =~= a.take(i as int).push(a[i as int]));
        i = i + 1;
    }
    assert(a.take(first.len() as int) =~= a);
    let mut j: usize = 0;
    assert(a + b.take(0) =~= a);
    while j < second.len()
        invariant
            j <= second.len(),
            b == plans(second@),
            plans(out@) == a + b.take(j as int),
        decreases second.len() - j,
    {
        let ghost prior = plans(out@);
        out.push(second[j]);
        assert(plans(out@) =~= prior.push(b[j as int]));
        assert(a + b.take(j + 1) =~= (a + b.take(j as int)).push(b[j as int]));
        j = j + 1;
    }
    assert(b.take(second.len() as int) =~= b);
    out
}

/// What a validator is made from.
pub enum ValidatorSource {
    /// A decision of a rule file.
    Decision(String, String),
    /// A ruleset's text.
    Ruleset(String),
}

/// The contents of a [`ValidatorSource`].
pub enum ValidatorSourceView {
    Decision(Seq<char>, Seq<char>),
    Ruleset(Seq<char>),
}

impl View for ValidatorSource {
    type V = ValidatorSourceView;

    open spec fn view(&self) -> ValidatorSourceView {
        match self {
            ValidatorSource::Decision(rule, id) => ValidatorSourceView::Decision(rule@, id@),
            ValidatorSource::Ruleset(s) => ValidatorSourceView::Ruleset(s@),
        }
    }
}

/// What a codec is made from.
pub enum CodecSource {
    /// The schemas of a folder.
    Schemas(Vec<String>),
    /// A schema bundle's folder.
    Bundle(String),
}

/// The contents of a [`CodecSource`].
pub enum CodecSourceView {
    Schemas(Seq<Seq<char>>),
    Bundle(Seq<char>),
}

impl View for CodecSource {
    type V = CodecSourceView;

    open spec fn view(&self) -> CodecSourceView {
        match self {
            CodecSource::Schemas(v) => CodecSourceView::Schemas(text::texts(v@)),
            CodecSource::Bundle(f) => CodecSourceView::Bundle(f@),
        }
    }
}

/// A process module under its deployment.
pub struct RegisteredModule<'a> {
    pub deployment: String,
    pub module: &'a ProcessModule,
}

/// What a row of registered modules holds.
pub open spec fn modules_of(v: Seq<RegisteredModule>) -> Seq<(Seq<char>, ProcessModule)> {
    v.map_values(|m: RegisteredModule| (m.deployment@, *m.module))
}

/// An outbound channel under its deployment.
pub struct RegisteredChannel<'a> {
    pub deployment: String,
    pub channel: &'a OutboundChannel,
}

/// What a row of registered channels holds.
pub open spec fn channels_of(v: Seq<RegisteredChannel>) -> Seq<(Seq<char>, OutboundView)> {
    v.map_values(|c: RegisteredChannel| (c.deployment@, c.channel@))
}

/// The registries of an activation. Processes and outbound channels belong to their deployment and
/// stand in the order in which they are registered.
pub struct SharedRegistries<'a> {
    pub processes: Vec<RegisteredModule<'a>>,
    pub outbound_channels: Vec<RegisteredChannel<'a>>,
    pub templates: TextMap<String>,
    pub scripts: TextMap<String>,
    pub decisions: TextMap<String>,
    pub validators: TextMap<ValidatorSource>,
    pub codecs: TextMap<CodecSource>,
}

/// The contents of [`SharedRegistries`].
pub struct RegistriesView {
    pub processes: Seq<(Seq<char>, ProcessModule)>,
    pub outbound_channels: Seq<(Seq<char>, OutboundView)>,
    pub templates: Seq<(Seq<char>, Seq<char>)>,
    pub scripts: Seq<(Seq<char>, Seq<char>)>,
    pub decisions: Seq<(Seq<char>, Seq<char>)>,
    pub validators: Seq<(Seq<char>, ValidatorSourceView)>,
    pub codecs: Seq<(Seq<char>, CodecSourceView)>,
}

impl<'a> View for SharedRegistries<'a> {
    type V = RegistriesView;

    open spec fn view(&self) -> RegistriesView {
        RegistriesView {
            processes: modules_of(self.processes@),
            outbound_channels: channels_of(self.outbound_channels@),
            templates: self.templates@,
            scripts: self.scripts@,
            decisions: self.decisions@,
            validators: self.validators@,
            codecs: self.codecs@,
        }
    }
}

/// `m` with these entries put into it, one after the other.
pub open spec fn put_all<T>(m: Seq<(Seq<char>, T)>, entries: Seq<(Seq<char>, T)>) -> Seq<
    (Seq<char>, T),
>
    decreases entries.len(),
{
    if entries.len() == 0 {
        m
    } else {
        let last = entries.last();
        keyed::put(put_all(m, entries.drop_last()), last.0, last.1)
    }
}

/// The validators that a plan registers: its decisions, then its rulesets.
pub open spec fn validator_entries(p: PlanView) -> Seq<(Seq<char>, ValidatorSourceView)> {
    p.validators.map_values(
        |v: ValidatorView| (v.key, ValidatorSourceView::Decision(v.rule, v.decision)),
    ) + p.srl_validators.map_values(
        |e: (Seq<char>, Seq<char>)| (e.0, ValidatorSourceView::Ruleset(e.1)),
    )
}

/// The codecs that a plan registers: those of its schema folders, then its bundles.
pub open spec fn codec_entries(p: PlanView) -> Seq<(Seq<char>, CodecSourceView)> {
    p.codecs.map_values(|e: (Seq<char>, Seq<Seq<char>>)| (e.0, CodecSourceView::Schemas(e.1)))
        + p.codec_bundles.map_values(
        |e: (Seq<char>, Seq<char>)| (e.0, CodecSourceView::Bundle(e.1)),
    )
}

/// The registries with one plan more.
pub open spec fn with_plan(r: RegistriesView, p: PlanView) -> RegistriesView {
    RegistriesView {
        processes: r.processes + p.modules.map_values(|m: ProcessModule| (p.dep, m)),
        outbound_channels: r.outbound_channels + p.outbound.map_values(
            |c: OutboundView| (p.dep, c),
        ),
        templates: put_all(r.templates, p.templates),
        scripts: put_all(r.scripts, p.scripts),
        decisions: put_all(r.decisions, p.decisions),
        validators: put_all(r.validators, validator_entries(p)),
        codecs: put_all(r.codecs, codec_entries(p)),
    }
}

/// The registries of a row of plans.
pub open spec fn registries(v: Seq<PlanView>) -> RegistriesView
    decreases v.len(),
{
    if v.len() == 0 {
        RegistriesView {
            processes: Seq::empty(),
            outbound_channels: Seq::empty(),
            templates: Seq::empty(),
            scripts: Seq::empty(),
            decisions: Seq::empty(),
            validators: Seq::empty(),
            codecs: Seq::empty(),
        }
    } else {
        with_plan(registries(v.drop_last()), v.last())
    }
}

/// Registering entries changes nothing under other keys.
pub proof fn registering_keeps_other_keys<T>(
    m: Seq<(Seq<char>, T)>,
    entries: Seq<(Seq<char>, T)>,
    key: Seq<char>,
)
    requires
        forall|i: int| 0 <= i < entries.len() ==> (#[trigger] entries[i]).0 != key,
    ensures
        keyed::lookup(put_all(m, entries), key) == keyed::lookup(m, key),
    decreases entries.len(),
{
    if entries.len() > 0 {
        let rest = entries.drop_last();
        assert forall|i: int| 0 <= i < rest.len() implies (#[trigger] rest[i]).0 != key by {
            assert(rest[i] == entries[i]);
        }
        registering_keeps_other_keys(m, rest, key);
        keyed::lookup_put(put_all(m, rest), entries.last().0, entries.last().1, key);
    }
}

/// The last entry under a key is the one that is found.
pub proof fn the_last_registered_is_found<T>(
    m: Seq<(Seq<char>, T)>,
    entries: Seq<(Seq<char>, T)>,
    at: int,
)
    requires
        0 <= at < entries.len(),
        forall|i: int| at < i < entries.len() ==> (#[trigger] entries[i]).0 != entries[at].0,
    ensures
        keyed::lookup(put_all(m, entries), entries[at].0) == Some(entries[at].1),
    decreases entries.len(),
{
    let rest = entries.drop_last();
    keyed::lookup_put(
        put_all(m, rest),
        entries.last().0,
        entries.last().1,
        entries[at].0,
    );
    if at < entries.len() - 1 {
        assert(entries[entries.len() - 1].0 != entries[at].0);
        assert forall|i: int| at < i < rest.len() implies (#[trigger] rest[i]).0 != rest[at].0 by {
            assert(rest[i] == entries[i]);
        }
        the_last_registered_is_found(m, rest, at);
    }
}

proof fn put_all_of_two<T>(
    m: Seq<(Seq<char>, T)>,
    a: Seq<(Seq<char>, T)>,
    b: Seq<(Seq<char>, T)>,
)
    ensures
        put_all(m, a + b) == put_all(put_all(m, a), b),
    decreases b.len(),
{
    if b.len() == 0 {
        assert(a + b =~= a);
    } else {
        put_all_of_two(m, a, b.drop_last());
        assert((a + b).drop_last() =~= a + b.drop_last());
    }
}

/// Put a row of pairs into a map.
pub(crate) fn put_pairs(out: &mut TextMap<String>, entries: &Vec<(String, String)>)
    ensures
        final(out)@ == put_all(old(out)@, text::pairs(entries@)),
{
    let ghost all = text::pairs(entries@);
    let ghost start = out@;
    let mut i: usize = 0;
    assert(put_all(start, all.take(0)) == start);
    while i < entries.len()
        invariant
            i <= entries.len(),
            all == text::pairs(entries@),
            out@ == put_all(start, all.take(i as int)),
        decreases entries.len() - i,
    {
        assert(all.take(i + 1).drop_last() =~= all.take(i as int));
        out.insert(entries[i].0.clone(), entries[i].1.clone());
        i = i + 1;
    }
    assert(all.take(entries.len() as int) =~= all);
}

fn put_validators(out: &mut TextMap<ValidatorSource>, plan: &DeploymentPlan)
    ensures
        final(out)@ == put_all(old(out)@, validator_entries(plan@)),
{
    let ghost tables = plan@.validators.map_values(
        |v: ValidatorView| (v.key, ValidatorSourceView::Decision(v.rule, v.decision)),
    );
    let ghost rulesets = plan@.srl_validators.map_values(
        |e: (Seq<char>, Seq<char>)| (e.0, ValidatorSourceView::Ruleset(e.1)),
    );
    let ghost start = out@;
    let mut i: usize = 0;
    assert(put_all(start, tables.take(0)) == start);
    while i < plan.validators.len()
        invariant
            i <= plan.validators.len(),
            tables == plan@.validators.map_values(
                |v: ValidatorView| (v.key, ValidatorSourceView::Decision(v.rule, v.decision)),
            ),
            out@ == put_all(start, tables.take(i as int)),
        decreases plan.validators.len() - i,
    {
        assert(tables.take(i + 1).drop_last() =~= tables.take(i as int));
        let v = &plan.validators[i];
        out.insert(
            v.key.clone(),
            ValidatorSource::Decision(v.rule.clone(), v.decision.clone()),
        );
        i = i + 1;
    }
    assert(tables.take(plan.validators.len() as int) =~= tables);
    let ghost mid = out@;
    let mut j: usize = 0;
    assert(put_all(mid, rulesets.take(0)) == mid);
    while j < plan.srl_validators.len()
        invariant
            j <= plan.srl_validators.len(),
            rulesets == plan@.srl_validators.map_values(
                |e: (Seq<char>, Seq<char>)| (e.0, ValidatorSourceView::Ruleset(e.1)),
            ),
            out@ == put_all(mid, rulesets.take(j as int)),
        decreases plan.srl_validators.len() - j,
    {
        assert(rulesets.take(j + 1).drop_last() =~= rulesets.take(j as int));
        let e = &plan.srl_validators[j];
        out.insert(e.0.clone(), ValidatorSource::Ruleset(e.1.clone()));
        j = j + 1;
    }
    assert(rulesets.take(plan.srl_validators.len() as int) =~= rulesets);
    proof {
        put_all_of_two(start, tables, rulesets);
    }
}

fn put_codecs(out: &mut TextMap<CodecSource>, plan: &DeploymentPlan)
    ensures
        final(out)@ == put_all(old(out)@, codec_entries(plan@)),
{
    let ghost folders = plan@.codecs.map_values(
        |e: (Seq<char>, Seq<Seq<char>>)| (e.0, CodecSourceView::Schemas(e.1)),
    );
    let ghost bundles = plan@.codec_bundles.map_values(
        |e: (Seq<char>, Seq<char>)| (e.0, CodecSourceView::Bundle(e.1)),
    );
    let ghost start = out@;
    let mut i: usize = 0;
    assert(put_all(start, folders.take(0)) == start);
    while i < plan.codecs.len()
        invariant
            i <= plan.codecs.len(),
            folders == plan@.codecs.map_values(
                |e: (Seq<char>, Seq<Seq<char>>)| (e.0, CodecSourceView::Schemas(e.1)),
            ),
            out@ == put_all(start, folders.take(i as int)),
        decreases plan.codecs.len() - i,
    {
        assert(folders.take(i + 1).drop_last() =~= folders.take(i as int));
        let e = &plan.codecs[i];
        out.insert(e.0.clone(), CodecSource::Schemas(text::copy_texts(&e.1)));
        i = i + 1;
    }
    assert(folders.take(plan.codecs.len() as int) =~= folders);
    let ghost mid = out@;
    let mut j: usize = 0;
    assert(put_all(mid, bundles.take(0)) == mid);
    while j < plan.codec_bundles.len()
        invariant
            j <= plan.codec_bundles.len(),
            bundles == plan@.codec_bundles.map_values(
                |e: (Seq<char>, Seq<char>)| (e.0, CodecSourceView::Bundle(e.1)),
            ),
            out@ == put_all(mid, bundles.take(j as int)),
        decreases plan.codec_bundles.len() - j,
    {
        assert(bundles.take(j + 1).drop_last() =~= bundles.take(j as int));
        let e = &plan.codec_bundles[j];
        out.insert(e.0.clone(), CodecSource::Bundle(e.1.clone()));
        j = j + 1;
    }
    assert(bundles.take(plan.codec_bundles.len() as int) =~= bundles);
    proof {
        put_all_of_two(start, folders, bundles);
    }
}

fn put_modules<'a>(out: &mut Vec<RegisteredModule<'a>>, plan: &'a DeploymentPlan)
    ensures
        modules_of(final(out)@) == modules_of(old(out)@) + plan@.modules.map_values(
            |m: ProcessModule| (plan@.dep, m),
        ),
{
    let ghost own = plan@.modules.map_values(|m: ProcessModule| (plan@.dep, m));
    let ghost start = modules_of(out@);
    let mut i: usize = 0;
    assert(start + own.take(0) =~= start);
    while i < plan.modules.len()
        invariant
            i <= plan.modules.len(),
            own == plan@.modules.map_values(|m: ProcessModule| (plan@.dep, m)),
            modules_of(out@) == start + own.take(i as int),
        decreases plan.modules.len() - i,
    {
        let ghost prior = modules_of(out@);
        out.push(RegisteredModule { deployment: plan.dep.clone(), module: &plan.modules[i] });
        assert(modules_of(out@) =~= prior.push(own[i as int]));
        assert(start + own.take(i + 1) =~= (start + own.take(i as int)).push(own[i as int]));
        i = i + 1;
    }
    assert(own.take(plan.modules.len() as int) =~= own);
}

fn put_channels<'a>(out: &mut Vec<RegisteredChannel<'a>>, plan: &'a DeploymentPlan)
    ensures
        channels_of(final(out)@) == channels_of(old(out)@) + plan@.outbound.map_values(
            |c: OutboundView| (plan@.dep, c),
        ),
{
    let ghost own = plan@.outbound.map_values(|c: OutboundView| (plan@.dep, c));
    let ghost start = channels_of(out@);
    let mut i: usize = 0;
    assert(start + own.take(0) =~= start);
    while i < plan.outbound.len()
        invariant
            i <= plan.outbound.len(),
            own == plan@.outbound.map_values(|c: OutboundView| (plan@.dep, c)),
            channels_of(out@) == start + own.take(i as int),
        decreases plan.outbound.len() - i,
    {
        let ghost prior = channels_of(out@);
        out.push(RegisteredChannel { deployment: plan.dep.clone(), channel: &plan.outbound[i] });
        assert(channels_of(out@) =~= prior.push(own[i as int]));
        assert(start + own.take(i + 1) =~= (start + own.take(i as int)).push(own[i as int]));
        i = i + 1;
    }
    assert(own.take(plan.outbound.len() as int) =~= own);
}

fn register_plan<'a>(out: &mut SharedRegistries<'a>, plan: &'a DeploymentPlan)
    ensures
        final(out)@ == with_plan(old(out)@, plan@),
{
    put_modules(&mut out.processes, plan);
    put_channels(&mut out.outbound_channels, plan);
    put_pairs(&mut out.templates, &plan.templates);
    put_pairs(&mut out.scripts, &plan.scripts);
    put_pairs(&mut out.decisions, &plan.decisions);
    put_validators(&mut out.validators, plan);
    put_codecs(&mut out.codecs, plan);
}

/// Build the registries of an activation.
pub fn build_shared_registries<'a>(
    active: &Vec<&'a DeploymentPlan>,
    draining: &Vec<&'a DeploymentPlan>,
) -> (r: SharedRegistries<'a>)
    ensures
        r@ == registries(plans(active@) + plans(draining@)),
{
    let mut out = SharedRegistries {
        processes: Vec::new(),
        outbound_channels: Vec::new(),
        templates: TextMap::new(),
        scripts: TextMap::new(),
        decisions: TextMap::new(),
        validators: TextMap::new(),
        codecs: TextMap::new(),
    };
    let ghost a = plans(active@);
    let ghost d = plans(draining@);
    let ghost all = a + d;
    let mut i: usize = 0;
    assert(modules_of(out.processes@) =~= Seq::empty());
    assert(channels_of(out.outbound_channels@) =~= Seq::empty());
    while i < active.len()
        invariant
            i <= active.len(),
            a == plans(active@),
            d == plans(draining@),
            all == a + d,
            out@ == registries(all.take(i as int)),
        decreases active.len() - i,
    {
        assert(all.take(i + 1).drop_last() =~= all.take(i as int));
        assert(all[i as int] == (*active@[i as int])@);
        register_plan(&mut out, active[i]);
        i = i + 1;
    }
    let mut j: usize = 0;
    while j < draining.len()
        invariant
            j <= draining.len(),
            a == plans(active@),
            d == plans(draining@),
            all == a + d,
            out@ == registries(all.take(active.len() + j)),
        decreases draining.len() - j,
    {
        assert(all.take(active.len() + j + 1).drop_last() =~= all.take(active.len() + j));
        assert(all[active.len() + j] == (*draining@[j as int])@);
        register_plan(&mut out, draining[j]);
        j = j + 1;
    }
    assert(all.take(active.len() + draining.len()) =~= all);
    out
}

} // verus!
