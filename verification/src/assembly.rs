//! Planning a deployment: what a loaded package becomes before anything is served.
//!
//! Planning is complete before any of it takes effect, and it fails closed: a rule that does not
//! parse, a redactor that does not compile, a channel on a transport that is not permitted or an
//! outbound bind that leads nowhere refuses the whole deployment. The one exception is a store whose
//! connection cannot be resolved here, which is left out.

use vstd::prelude::*;

use crate::graph::{DeploymentNodeIndex, ProcessModule};
use crate::graph;
use crate::json::{Json, JsonView};
use crate::keyed;
use crate::keyed::{TextMap, TextSet};
use crate::schedules::{TimerScheduleArming, TimerStart};
use crate::schedules;
use crate::sources;
use crate::stores::{ProjectedStore, ProjectedView, ProjectionAnswer, StoreDefinition, StoreDialect};
use crate::stores;
use crate::text;
use crate::transports::{ChannelDefinition, ChannelView, Namespace, NamespaceView};
use crate::transports;

verus! {

// ---- names -------------------------------------------------------------------------------------

/// A path with its folders separated by colons.
pub open spec fn colons(path: Seq<char>) -> Seq<char> {
    path.map_values(
        |c: char|
            if c == '/' {
                ':'
            } else {
                c
            },
    )
}

/// The local id of a redactor: its path without the extension.
pub open spec fn redactor_id(path: Seq<char>) -> Seq<char> {
    if text::finishes(path, ".hbs"@) {
        colons(path.take(path.len() - ".hbs"@.len()))
    } else {
        colons(path)
    }
}

/// The name of an artifact of a kind within a deployment.
pub open spec fn archive_urn(kind: Seq<char>, local: Seq<char>, dep: Seq<char>) -> Seq<char> {
    "urn:sutra:"@ + kind + ":"@ + local + ":"@ + dep
}

/// The local id of a rule: its path, extension kept, since more than one engine reads rules.
pub fn rule_local_id(subpath: &str) -> (r: String)
    ensures
        r@ == colons(subpath@),
{
    let chars = text::chars_of(subpath);
    let mut out = String::new();
    let mut i: usize = 0;
    assert(out@ =~= colons(subpath@.take(0)));
    while i < chars.len()
        invariant
            i <= chars.len(),
            chars@ == subpath@,
            out@ == colons(subpath@.take(i as int)),
        decreases chars.len() - i,
    {
        let c = chars[i];
        let ghost prior = out@;
        out.push(
            if c == '/' {
                ':'
            } else {
                c
            },
        );
        assert(out@ =~= colons(subpath@.take(i + 1)));
        i = i + 1;
    }
    assert(subpath@.take(chars.len() as int) =~= subpath@);
    out
}

/// The local id of a redactor: its path, extension left out, since one engine reads redactors.
pub fn redactor_local_id(subpath: &str) -> (r: String)
    ensures
        r@ == redactor_id(subpath@),
{
    if text::ends_with(subpath, ".hbs") {
        let chars = text::chars_of(subpath);
        proof {
            reveal_strlit(".hbs");
        }
        let stem = text::text_of(&chars, 0, chars.len() - 4);
        assert(stem@ =~= subpath@.take(subpath@.len() - 4));
        rule_local_id(&stem)
    } else {
        rule_local_id(subpath)
    }
}

/// The name of an artifact of a kind within a deployment.
pub(crate) fn urn(kind: &str, local: &str, dep: &str) -> (r: String)
    ensures
        r@ == archive_urn(kind@, local@, dep@),
{
    text::text2(&text::text5("urn:sutra:", kind, ":", local, ":"), dep)
}

// ---- what is loaded ----------------------------------------------------------------------------

/// The kinds of artifacts that are registered under a deployment's own keys.
#[derive(Debug, Clone, Copy, PartialEq, Eq, Structural)]
pub enum ArtifactType {
    Template,
    Script,
    Decision,
}

/// A rule with what its engine's parser said: the ids of its decisions, or what is wrong. A ruleset
/// that declares no decisions has none.
pub struct RuleArtifact {
    pub id: String,
    pub content: String,
    pub parsed: Result<Vec<String>, String>,
}

/// A redactor with what its compiler said.
pub struct RedactorArtifact {
    pub id: String,
    pub content: String,
    pub compiled: Result<(), String>,
}

/// A folder of schemas.
pub struct CodecFolder {
    pub name: String,
    pub schemas: Vec<String>,
}

/// Why a document could not be loaded.
pub struct LoadFailure {
    pub code: String,
    pub message: String,
}

/// A declared store with what was answered about it.
pub struct DeclaredStore {
    pub def: StoreDefinition,
    /// Whether it can be bound as the coverage store.
    pub coverage: Result<(), String>,
    /// Its migrations in the binding directory.
    pub on_disk: Result<Vec<String>, String>,
    /// What the schema compiler said of its structure.
    pub projection: ProjectionAnswer,
    /// What its connection resolved to.
    pub url: Result<Option<String>, String>,
    /// Whether it can be opened there.
    pub opened: Result<(), String>,
}

/// A loaded deployment.
pub struct LoadedDeployment {
    pub id: String,
    pub namespace: Namespace,
    /// The parsed documents, each once.
    pub modules: Vec<ProcessModule>,
    pub templates: TextMap<String>,
    pub scripts: TextMap<String>,
    pub rules: Vec<RuleArtifact>,
    pub redactors: Vec<RedactorArtifact>,
    /// The folders that a schema bundle claims.
    pub bundles: Result<Vec<String>, LoadFailure>,
    pub codecs: Vec<CodecFolder>,
    pub channels: Option<Result<Vec<ChannelDefinition>, LoadFailure>>,
    pub datastores: Option<Result<Vec<DeclaredStore>, String>>,
    pub migrations: TextMap<String>,
    /// Whether the deployment comes from a sealed archive, which has no binding directory.
    pub sealed: bool,
    /// The API surface projected from its channels, modules and stores.
    pub api: Json,
}

/// How what lies outside answers.
pub struct Answers {
    /// The key of an artifact.
    pub key: spec_fn(ArtifactType, Seq<char>) -> Seq<char>,
    /// A text with its references resolved.
    pub resolve: sources::Resolution,
    /// Whether a destination has a scheme.
    pub schemed: spec_fn(Seq<char>) -> bool,
}

/// Ways to ask outside.
pub struct Outside<K, R, S> {
    /// The key of an artifact.
    pub key: K,
    /// A text with its references resolved.
    pub resolve: R,
    /// Whether a destination has a scheme.
    pub schemed: S,
}

impl<
    K: Fn(ArtifactType, &str) -> String,
    R: Fn(&str) -> Result<String, String>,
    S: Fn(&str) -> bool,
> Outside<K, R, S> {
    /// Whether what lies outside answers as `m` says.
    pub open spec fn are(&self, m: Answers) -> bool {
        &&& forall|t: ArtifactType, id: &str, r: String| #[trigger]
            call_ensures(self.key, (t, id), r) ==> r@ == (m.key)(t, id@)
        &&& forall|v: &str, r: Result<String, String>| #[trigger]
            call_ensures(self.resolve, (v,), r) ==> sources::outcome(r) == (m.resolve)(v@)
        &&& forall|v: &str, r: bool| #[trigger]
            call_ensures(self.schemed, (v,), r) ==> r == (m.schemed)(v@)
    }

    /// Whether anything may be asked.
    pub open spec fn ready(&self) -> bool {
        &&& forall|t: ArtifactType, id: &str| call_requires(self.key, (t, id))
        &&& forall|v: &str| call_requires(self.resolve, (v,))
        &&& forall|v: &str| call_requires(self.schemed, (v,))
    }
}

// ---- what is planned ---------------------------------------------------------------------------

/// A decision of a rule file, exposed as a validator.
pub struct RuleValidator {
    pub key: String,
    pub rule: String,
    pub decision: String,
}

/// The contents of a [`RuleValidator`].
pub struct ValidatorView {
    pub key: Seq<char>,
    pub rule: Seq<char>,
    pub decision: Seq<char>,
}

impl View for RuleValidator {
    type V = ValidatorView;

    open spec fn view(&self) -> ValidatorView {
        ValidatorView { key: self.key@, rule: self.rule@, decision: self.decision@ }
    }
}

/// An outbound channel as it is resolved.
pub struct OutboundChannel {
    pub name: String,
    pub transport: String,
    pub destination: String,
    pub auth_scheme: Option<String>,
    pub secret_ref: Option<String>,
    pub header: Option<String>,
    pub cloud_events_mode: String,
}

/// The contents of an [`OutboundChannel`].
pub struct OutboundView {
    pub name: Seq<char>,
    pub transport: Seq<char>,
    pub destination: Seq<char>,
    pub auth_scheme: Option<Seq<char>>,
    pub secret_ref: Option<Seq<char>>,
    pub header: Option<Seq<char>>,
    pub cloud_events_mode: Seq<char>,
}

impl View for OutboundChannel {
    type V = OutboundView;

    open spec fn view(&self) -> OutboundView {
        OutboundView {
            name: self.name@,
            transport: self.transport@,
            destination: self.destination@,
            auth_scheme: sources::opt(self.auth_scheme),
            secret_ref: sources::opt(self.secret_ref),
            header: sources::opt(self.header),
            cloud_events_mode: self.cloud_events_mode@,
        }
    }
}

/// A store that can be used.
pub struct StoreBinding {
    pub name: String,
    pub dialect: StoreDialect,
    pub migrations: Vec<String>,
    /// The table and the columns its rows are projected to, where it declares a structure.
    pub projected: Option<ProjectedStore>,
}

/// The contents of a [`StoreBinding`].
pub struct BindingView {
    pub name: Seq<char>,
    pub dialect: StoreDialect,
    pub migrations: Seq<Seq<char>>,
    pub projected: Option<ProjectedView>,
}

impl View for StoreBinding {
    type V = BindingView;

    open spec fn view(&self) -> BindingView {
        BindingView {
            name: self.name@,
            dialect: self.dialect,
            migrations: text::texts(self.migrations@),
            projected: match self.projected {
                Some(p) => Some(p@),
                None => None,
            },
        }
    }
}

/// A planned deployment.
pub struct DeploymentPlan {
    pub dep: String,
    pub namespace: Namespace,
    pub modules: Vec<ProcessModule>,
    pub templates: Vec<(String, String)>,
    pub scripts: Vec<(String, String)>,
    pub decisions: Vec<(String, String)>,
    pub validators: Vec<RuleValidator>,
    pub srl_validators: Vec<(String, String)>,
    pub redactors: Vec<(String, String)>,
    pub codecs: Vec<(String, Vec<String>)>,
    pub codec_bundles: Vec<(String, String)>,
    pub definitions: Vec<ChannelDefinition>,
    pub outbound: Vec<OutboundChannel>,
    pub stores: Vec<StoreBinding>,
    /// Whether the declared coverage store is bound.
    pub coverage: bool,
    /// Why a declared coverage store is not.
    pub coverage_fault: Option<String>,
    pub openapi_spec: Json,
}

/// The contents of a [`DeploymentPlan`].
pub struct PlanView {
    pub dep: Seq<char>,
    pub namespace: NamespaceView,
    pub modules: Seq<ProcessModule>,
    pub templates: Seq<(Seq<char>, Seq<char>)>,
    pub scripts: Seq<(Seq<char>, Seq<char>)>,
    pub decisions: Seq<(Seq<char>, Seq<char>)>,
    pub validators: Seq<ValidatorView>,
    pub srl_validators: Seq<(Seq<char>, Seq<char>)>,
    pub redactors: Seq<(Seq<char>, Seq<char>)>,
    pub codecs: Seq<(Seq<char>, Seq<Seq<char>>)>,
    pub codec_bundles: Seq<(Seq<char>, Seq<char>)>,
    pub definitions: Seq<ChannelView>,
    pub outbound: Seq<OutboundView>,
    pub stores: Seq<BindingView>,
    pub coverage: bool,
    pub coverage_fault: Option<Seq<char>>,
    pub openapi_spec: JsonView,
}

/// What a row of named groups holds.
pub open spec fn groups(v: Seq<(String, Vec<String>)>) -> Seq<(Seq<char>, Seq<Seq<char>>)> {
    v.map_values(|p: (String, Vec<String>)| (p.0@, text::texts(p.1@)))
}

impl View for DeploymentPlan {
    type V = PlanView;

    open spec fn view(&self) -> PlanView {
        PlanView {
            dep: self.dep@,
            namespace: self.namespace@,
            modules: self.modules@,
            templates: text::pairs(self.templates@),
            scripts: text::pairs(self.scripts@),
            decisions: text::pairs(self.decisions@),
            validators: self.validators@.map_values(|v: RuleValidator| v@),
            srl_validators: text::pairs(self.srl_validators@),
            redactors: text::pairs(self.redactors@),
            codecs: groups(self.codecs@),
            codec_bundles: text::pairs(self.codec_bundles@),
            definitions: transports::channels(self.definitions@),
            outbound: self.outbound@.map_values(|o: OutboundChannel| o@),
            stores: self.stores@.map_values(|b: StoreBinding| b@),
            coverage: self.coverage,
            coverage_fault: sources::opt(self.coverage_fault),
            openapi_spec: self.openapi_spec@,
        }
    }
}

// ---- templates and scripts ---------------------------------------------------------------------

/// The artifacts of a kind under their keys, in the order of their ids.
pub open spec fn keyed_artifacts(
    kind: ArtifactType,
    artifacts: Seq<(Seq<char>, Seq<char>)>,
    m: Answers,
) -> Seq<(Seq<char>, Seq<char>)> {
    artifacts.map_values(|a: (Seq<char>, Seq<char>)| ((m.key)(kind, a.0), a.1))
}

fn plan_artifacts<
    K: Fn(ArtifactType, &str) -> String,
    R: Fn(&str) -> Result<String, String>,
    S: Fn(&str) -> bool,
>(kind: ArtifactType, artifacts: &TextMap<String>, outside: &Outside<K, R, S>) -> (r: Vec<
    (String, String),
>)
    requires
        outside.ready(),
    ensures
        forall|m: Answers| #[trigger]
            outside.are(m) ==> text::pairs(r@) == keyed_artifacts(kind, artifacts@, m),
{
    let mut out: Vec<(String, String)> = Vec::new();
    let mut i: usize = 0;
    while i < artifacts.len()
        invariant
            i <= artifacts@.len(),
            out.len() == i,
            outside.ready(),
            forall|m: Answers, k: int| #![trigger outside.are(m), out@[k]]
                outside.are(m) && 0 <= k < i ==> out@[k].0@ == (m.key)(kind, artifacts@[k].0)
                    && out@[k].1@ == artifacts@[k].1,
        decreases artifacts@.len() - i,
    {
        let key = (outside.key)(kind, artifacts.key_at(i).as_str());
        out.push((key, artifacts.value_at(i).clone()));
        i = i + 1;
    }
    assert forall|m: Answers| #[trigger] outside.are(m) implies text::pairs(out@) == keyed_artifacts(
        kind,
        artifacts@,
        m,
    ) by {
        assert(text::pairs(out@) =~= keyed_artifacts(kind, artifacts@, m));
    }
    out
}

// ---- rules -------------------------------------------------------------------------------------

/// What the rules of a deployment are planned as.
pub struct RulesView {
    pub decisions: Seq<(Seq<char>, Seq<char>)>,
    pub validators: Seq<ValidatorView>,
    pub srl: Seq<(Seq<char>, Seq<char>)>,
}

/// The validators of a decision table: one for each decision under its id, and one more under the
/// file's path where there is a single decision.
pub open spec fn table_validators(rule: Seq<char>, ids: Seq<Seq<char>>, dep: Seq<char>) -> Seq<
    ValidatorView,
> {
    let own = ids.map_values(
        |d: Seq<char>| ValidatorView { key: archive_urn("rule"@, d, dep), rule, decision: d },
    );
    if ids.len() == 1 {
        own.push(
            ValidatorView {
                key: archive_urn("rule"@, colons(rule), dep),
                rule,
                decision: ids[0],
            },
        )
    } else {
        own
    }
}

/// What the rules are planned as, in their order, or the first that does not parse. Decision tables
/// and rulesets both serve as decisions and as validators; any other file is left out.
pub open spec fn rules_planned(rules: Seq<RuleArtifact>, dep: Seq<char>, m: Answers) -> Result<
    RulesView,
    Seq<char>,
>
    decreases rules.len(),
{
    if rules.len() == 0 {
        Ok(
            RulesView {
                decisions: Seq::empty(),
                validators: Seq::empty(),
                srl: Seq::empty(),
            },
        )
    } else {
        match rules_planned(rules.drop_last(), dep, m) {
            Err(e) => Err(e),
            Ok(v) => rule_planned(v, rules.last(), dep, m),
        }
    }
}

/// One rule more.
pub open spec fn rule_planned(
    v: RulesView,
    rule: RuleArtifact,
    dep: Seq<char>,
    m: Answers,
) -> Result<RulesView, Seq<char>> {
    let table = text::finishes(rule.id@, ".dmn"@);
    let ruleset = text::finishes(rule.id@, ".srl"@);
    if !table && !ruleset {
        Ok(v)
    } else {
        match rule.parsed {
            Err(e) => Err(
                "rule '"@ + rule.id@ + "' of deployment "@ + dep + " failed to parse: "@ + e@,
            ),
            Ok(ids) => Ok(
                RulesView {
                    decisions: v.decisions.push(
                        ((m.key)(ArtifactType::Decision, rule.id@), rule.content@),
                    ),
                    validators: if table {
                        v.validators + table_validators(rule.id@, text::texts(ids@), dep)
                    } else {
                        v.validators
                    },
                    srl: if table {
                        v.srl
                    } else {
                        v.srl.push(
                            (archive_urn("rule"@, colons(rule.id@), dep), rule.content@),
                        )
                    },
                },
            ),
        }
    }
}

proof fn later_rules_keep_the_failure(
    rules: Seq<RuleArtifact>,
    n: int,
    dep: Seq<char>,
    m: Answers,
)
    requires
        0 <= n <= rules.len(),
        rules_planned(rules.take(n), dep, m) is Err,
    ensures
        rules_planned(rules, dep, m) == rules_planned(rules.take(n), dep, m),
    decreases rules.len() - n,
{
    if n < rules.len() {
        let next = rules.take(n + 1);
        assert(next.drop_last() =~= rules.take(n));
        later_rules_keep_the_failure(rules, n + 1, dep, m);
    } else {
        assert(rules.take(n) =~= rules);
    }
}

/// The planned rules.
pub struct PlannedRules {
    pub decisions: Vec<(String, String)>,
    pub validators: Vec<RuleValidator>,
    pub srl: Vec<(String, String)>,
}

impl View for PlannedRules {
    type V = RulesView;

    open spec fn view(&self) -> RulesView {
        RulesView {
            decisions: text::pairs(self.decisions@),
            validators: self.validators@.map_values(|v: RuleValidator| v@),
            srl: text::pairs(self.srl@),
        }
    }
}

fn push_table_validators(out: &mut Vec<RuleValidator>, rule: &str, ids: &Vec<String>, dep: &str)
    ensures
        final(out)@.map_values(|v: RuleValidator| v@) == old(out)@.map_values(
            |v: RuleValidator| v@,
        ) + table_validators(rule@, text::texts(ids@), dep@),
{
    let ghost start = out@.map_values(|v: RuleValidator| v@);
    let ghost all = text::texts(ids@);
    let ghost own = all.map_values(
        |d: Seq<char>|
            ValidatorView { key: archive_urn("rule"@, d, dep@), rule: rule@, decision: d },
    );
    let mut i: usize = 0;
    assert(start + own.take(0) =~= start);
    while i < ids.len()
        invariant
            i <= ids.len(),
            all == text::texts(ids@),
            own == all.map_values(
                |d: Seq<char>|
                    ValidatorView {
                        key: archive_urn("rule"@, d, dep@),
                        rule: rule@,
                        decision: d,
                    },
            ),
            out@.map_values(|v: RuleValidator| v@) == start + own.take(i as int),
        decreases ids.len() - i,
    {
        let ghost prior = out@.map_values(|v: RuleValidator| v@);
        let v = RuleValidator {
            key: urn("rule", &ids[i], dep),
            rule: rule.to_owned(),
            decision: ids[i].clone(),
        };
        out.push(v);
        assert(out@.map_values(|v: RuleValidator| v@) =~= prior.push(v@));
        assert(v@ == own[i as int]);
        assert(start + own.take(i + 1) =~= (start + own.take(i as int)).push(own[i as int]));
        i = i + 1;
    }
    assert(own.take(ids.len() as int) =~= own);
    if ids.len() == 1 {
        let ghost prior = out@.map_values(|v: RuleValidator| v@);
        let v = RuleValidator {
            key: urn("rule", &rule_local_id(rule), dep),
            rule: rule.to_owned(),
            decision: ids[0].clone(),
        };
        out.push(v);
        assert(out@.map_values(|v: RuleValidator| v@) =~= prior.push(v@));
        assert((start + own).push(v@) =~= start + own.push(v@));
    }
}

/// Plan the rules.
pub fn plan_rules<
    K: Fn(ArtifactType, &str) -> String,
    R: Fn(&str) -> Result<String, String>,
    S: Fn(&str) -> bool,
>(rules: &Vec<RuleArtifact>, dep: &str, outside: &Outside<K, R, S>) -> (r: Result<
    PlannedRules,
    String,
>)
    requires
        outside.ready(),
    ensures
        forall|m: Answers| #[trigger]
            outside.are(m) ==> match r {
                Ok(p) => rules_planned(rules@, dep@, m) == Ok::<RulesView, Seq<char>>(p@),
                Err(e) => rules_planned(rules@, dep@, m) == Err::<RulesView, Seq<char>>(e@),
            },
{
    let mut out = PlannedRules { decisions: Vec::new(), validators: Vec::new(), srl: Vec::new() };
    let mut i: usize = 0;
    assert forall|m: Answers| #[trigger] outside.are(m) implies rules_planned(
        rules@.take(0),
        dep@,
        m,
    ) == Ok::<RulesView, Seq<char>>(out@) by {
        assert(out@.decisions =~= Seq::empty());
        assert(out@.validators =~= Seq::empty());
        assert(out@.srl =~= Seq::empty());
    }
    while i < rules.len()
        invariant
            i <= rules.len(),
            outside.ready(),
            forall|m: Answers| #[trigger]
                outside.are(m) ==> rules_planned(rules@.take(i as int), dep@, m) == Ok::<
                    RulesView,
                    Seq<char>,
                >(out@),
        decreases rules.len() - i,
    {
        let rule = &rules[i];
        let ghost next = rules@.take(i + 1);
        let ghost prior = out@;
        assert(next.drop_last() =~= rules@.take(i as int));
        assert(next.last() == *rule);
        let table = text::ends_with(&rule.id, ".dmn");
        let ruleset = text::ends_with(&rule.id, ".srl");
        if table || ruleset {
            match &rule.parsed {
                Err(e) => {
                    let head = text::text4("rule '", &rule.id, "' of deployment ", dep);
                    let failure = text::text3(&head, " failed to parse: ", e);
                    assert forall|m: Answers| #[trigger] outside.are(m) implies rules_planned(
                        rules@,
                        dep@,
                        m,
                    ) == Err::<RulesView, Seq<char>>(failure@) by {
                        assert(rules_planned(rules@.take(i as int), dep@, m) == Ok::<
                            RulesView,
                            Seq<char>,
                        >(prior));
                        later_rules_keep_the_failure(rules@, i + 1, dep@, m);
                    }
                    return Err(failure);
                },
                Ok(ids) => {
                    let key = (outside.key)(ArtifactType::Decision, rule.id.as_str());
                    let ghost k = key@;
                    out.decisions.push((key, rule.content.clone()));
                    assert(text::pairs(out.decisions@) =~= prior.decisions.push((k, rule.content@)));
                    if table {
                        push_table_validators(&mut out.validators, &rule.id, ids, dep);
                    } else {
                        let name = urn("rule", &rule_local_id(&rule.id), dep);
                        let ghost n = name@;
                        out.srl.push((name, rule.content.clone()));
                        assert(text::pairs(out.srl@) =~= prior.srl.push((n, rule.content@)));
                    }
                },
            }
        }
        assert forall|m: Answers| #[trigger] outside.are(m) implies rules_planned(
            next,
            dep@,
            m,
        ) == Ok::<RulesView, Seq<char>>(out@) by {
            assert(rules_planned(rules@.take(i as int), dep@, m) == Ok::<RulesView, Seq<char>>(
                prior,
            ));
        }
        i = i + 1;
    }
    assert(rules@.take(rules.len() as int) =~= rules@);
    Ok(out)
}

// ---- redactors and codecs ----------------------------------------------------------------------

/// What the redactors are planned as, or the first that does not compile.
pub open spec fn redactors_planned(redactors: Seq<RedactorArtifact>, dep: Seq<char>) -> Result<
    Seq<(Seq<char>, Seq<char>)>,
    Seq<char>,
>
    decreases redactors.len(),
{
    if redactors.len() == 0 {
        Ok(Seq::empty())
    } else {
        match redactors_planned(redactors.drop_last(), dep) {
            Err(e) => Err(e),
            Ok(v) => {
                let last = redactors.last();
                match last.compiled {
                    Err(e) => Err(
                        "redactor '"@ + last.id@ + "' of deployment "@ + dep
                            + " failed to compile: "@ + e@,
                    ),
                    Ok(_) => Ok(
                        v.push(
                            (archive_urn("redactor"@, redactor_id(last.id@), dep), last.content@),
                        ),
                    ),
                }
            },
        }
    }
}

proof fn later_redactors_keep_the_failure(
    redactors: Seq<RedactorArtifact>,
    n: int,
    dep: Seq<char>,
)
    requires
        0 <= n <= redactors.len(),
        redactors_planned(redactors.take(n), dep) is Err,
    ensures
        redactors_planned(redactors, dep) == redactors_planned(redactors.take(n), dep),
    decreases redactors.len() - n,
{
    if n < redactors.len() {
        let next = redactors.take(n + 1);
        assert(next.drop_last() =~= redactors.take(n));
        later_redactors_keep_the_failure(redactors, n + 1, dep);
    } else {
        assert(redactors.take(n) =~= redactors);
    }
}

/// Plan the redactors.
pub fn plan_redactors(redactors: &Vec<RedactorArtifact>, dep: &str) -> (r: Result<
    Vec<(String, String)>,
    String,
>)
    ensures
        match r {
            Ok(v) => redactors_planned(redactors@, dep@) == Ok::<
                Seq<(Seq<char>, Seq<char>)>,
                Seq<char>,
            >(text::pairs(v@)),
            Err(e) => redactors_planned(redactors@, dep@) == Err::<
                Seq<(Seq<char>, Seq<char>)>,
                Seq<char>,
            >(e@),
        },
{
    let mut out: Vec<(String, String)> = Vec::new();
    let mut i: usize = 0;
    assert(text::pairs(out@) =~= Seq::empty());
    while i < redactors.len()
        invariant
            i <= redactors.len(),
            redactors_planned(redactors@.take(i as int), dep@) == Ok::<
                Seq<(Seq<char>, Seq<char>)>,
                Seq<char>,
            >(text::pairs(out@)),
        decreases redactors.len() - i,
    {
        let last = &redactors[i];
        let ghost next = redactors@.take(i + 1);
        let ghost prior = text::pairs(out@);
        assert(next.drop_last() =~= redactors@.take(i as int));
        assert(next.last() == *last);
        match &last.compiled {
            Err(e) => {
                let head = text::text4("redactor '", &last.id, "' of deployment ", dep);
                proof {
                    later_redactors_keep_the_failure(redactors@, i + 1, dep@);
                }
                return Err(text::text3(&head, " failed to compile: ", e));
            },
            Ok(_) => {
                let key = urn("redactor", &redactor_local_id(&last.id), dep);
                let ghost k = key@;
                out.push((key, last.content.clone()));
                assert(text::pairs(out@) =~= prior.push((k, last.content@)));
            },
        }
        i = i + 1;
    }
    assert(redactors@.take(redactors.len() as int) =~= redactors@);
    Ok(out)
}

/// The schema bundles under their names within the deployment.
pub open spec fn bundles_planned(folders: Seq<Seq<char>>, dep: Seq<char>) -> Seq<
    (Seq<char>, Seq<char>),
> {
    folders.map_values(|f: Seq<char>| (archive_urn("codec"@, f, dep), f))
}

/// The codecs of the schema folders that no bundle claims.
pub open spec fn codecs_planned(codecs: Seq<CodecFolder>, claimed: Seq<Seq<char>>) -> Seq<
    (Seq<char>, Seq<Seq<char>>),
>
    decreases codecs.len(),
{
    if codecs.len() == 0 {
        Seq::empty()
    } else {
        let rest = codecs_planned(codecs.drop_last(), claimed);
        let last = codecs.last();
        if claimed.contains(last.name@) {
            rest
        } else {
            rest.push(("urn:"@ + last.name@, text::texts(last.schemas@)))
        }
    }
}

fn plan_bundles(folders: &Vec<String>, dep: &str) -> (r: Vec<(String, String)>)
    ensures
        text::pairs(r@) == bundles_planned(text::texts(folders@), dep@),
{
    let mut out: Vec<(String, String)> = Vec::new();
    let mut i: usize = 0;
    while i < folders.len()
        invariant
            i <= folders.len(),
            out.len() == i,
            forall|k: int|
                0 <= k < i ==> (#[trigger] out@[k]).0@ == archive_urn(
                    "codec"@,
                    folders@[k]@,
                    dep@,
                ) && out@[k].1@ == folders@[k]@,
        decreases folders.len() - i,
    {
        out.push((urn("codec", &folders[i], dep), folders[i].clone()));
        i = i + 1;
    }
    assert(text::pairs(out@) =~= bundles_planned(text::texts(folders@), dep@));
    out
}

fn plan_codecs(codecs: &Vec<CodecFolder>, claimed: &Vec<String>) -> (r: Vec<(String, Vec<String>)>)
    ensures
        groups(r@) == codecs_planned(codecs@, text::texts(claimed@)),
{
    let mut out: Vec<(String, Vec<String>)> = Vec::new();
    let mut i: usize = 0;
    assert(groups(out@) =~= codecs_planned(codecs@.take(0), text::texts(claimed@)));
    while i < codecs.len()
        invariant
            i <= codecs.len(),
            groups(out@) == codecs_planned(codecs@.take(i as int), text::texts(claimed@)),
        decreases codecs.len() - i,
    {
        let last = &codecs[i];
        let ghost next = codecs@.take(i + 1);
        let ghost prior = groups(out@);
        assert(next.drop_last() =~= codecs@.take(i as int));
        assert(next.last() == *last);
        if !text::contains(claimed, &last.name) {
            let name = text::text2("urn:", &last.name);
            let schemas = text::copy_texts(&last.schemas);
            let ghost entry = (name@, text::texts(schemas@));
            out.push((name, schemas));
            assert(groups(out@) =~= prior.push(entry));
        }
        i = i + 1;
    }
    assert(codecs@.take(codecs.len() as int) =~= codecs@);
    out
}

// ---- channels ----------------------------------------------------------------------------------

/// The channels, bound to the deployment.
pub open spec fn bound(defs: Seq<ChannelView>, dep: Seq<char>) -> Seq<ChannelView> {
    defs.map_values(|d: ChannelView| ChannelView { deployment: dep, ..d })
}

fn bind_channels(definitions: Vec<ChannelDefinition>, dep: &str) -> (r: Vec<ChannelDefinition>)
    ensures
        transports::channels(r@) == bound(transports::channels(definitions@), dep@),
{
    let mut rest = definitions;
    let ghost all = transports::channels(definitions@);
    let mut out: Vec<ChannelDefinition> = Vec::new();
    while rest.len() > 0
        invariant
            rest.len() + out.len() == all.len(),
            transports::channels(rest@) == all.skip(out.len() as int),
            transports::channels(out@) == bound(all, dep@).take(out.len() as int),
        decreases rest.len(),
    {
        let ghost n = out.len() as int;
        let ghost before = rest@;
        let ghost prior = transports::channels(out@);
        let mut def = rest.remove(0);
        assert(before[0]@ == all[n]) by {
            assert(transports::channels(before)[0] == all.skip(n)[0]);
        }
        assert(transports::channels(rest@) =~= transports::channels(before).drop_first());
        assert(all.skip(n).drop_first() =~= all.skip(n + 1));
        def.deployment = dep.to_owned();
        assert(def@ == bound(all, dep@)[n]);
        out.push(def);
        assert(transports::channels(out@) =~= prior.push(bound(all, dep@)[n]));
        assert(bound(all, dep@).take(n + 1) =~= bound(all, dep@).take(n).push(
            bound(all, dep@)[n],
        ));
    }
    assert(bound(all, dep@).take(all.len() as int) =~= bound(all, dep@));
    out
}

/// A text that is given and not blank.
pub open spec fn given(s: Option<Seq<char>>) -> Option<Seq<char>> {
    match s {
        Some(t) => if text::trimmed(t).len() > 0 {
            Some(t)
        } else {
            None
        },
        None => None,
    }
}

/// What an outbound channel resolves to. A failure names the bind as it is written, so that a
/// resolved secret is never shown.
pub open spec fn outbound_resolved(def: ChannelView, dep: Seq<char>, m: Answers) -> Result<
    OutboundView,
    Seq<char>,
> {
    let head = "Outbound channel '"@ + def.channel_name + "' of deployment "@ + dep;
    match given(def.transport) {
        None => Err(head + " is invalid: it declares no transport"@),
        Some(transport) => match given(def.bind_spec) {
            None => Err(head + " is invalid: it declares no 'bind' destination URI"@),
            Some(raw) => match (m.resolve)(text::trimmed(raw)) {
                Err(e) => Err(head + ": 'bind' has an unresolved reference: "@ + e),
                Ok(destination) => if !(m.schemed)(destination) {
                    Err(
                        head + " is invalid: 'bind' ("@ + raw
                            + ") has no URI scheme — an outbound destination must be a full URI a MessageSink resolves by scheme (e.g. https://host/path, rabbitmq://exchange/rk, local://<internal-channel>)"@,
                    )
                } else {
                    Ok(
                        OutboundView {
                            name: def.channel_name,
                            transport,
                            destination: transports::expanded(
                                destination,
                                def.namespace.module_key(),
                            ),
                            auth_scheme: def.auth_scheme,
                            secret_ref: keyed::lookup(def.properties, "secret-ref"@),
                            header: keyed::lookup(def.properties, "header"@),
                            cloud_events_mode: match def.cloud_events_mode {
                                Some(mode) => mode,
                                None => "none"@,
                            },
                        },
                    )
                },
            },
        },
    }
}

/// What the outbound channels resolve to, or the first failure.
pub open spec fn outbound_planned(defs: Seq<ChannelView>, dep: Seq<char>, m: Answers) -> Result<
    Seq<OutboundView>,
    Seq<char>,
>
    decreases defs.len(),
{
    if defs.len() == 0 {
        Ok(Seq::empty())
    } else {
        match outbound_planned(defs.drop_last(), dep, m) {
            Err(e) => Err(e),
            Ok(v) => if !defs.last().outbound {
                Ok(v)
            } else {
                match outbound_resolved(defs.last(), dep, m) {
                    Err(e) => Err(e),
                    Ok(o) => Ok(v.push(o)),
                }
            },
        }
    }
}

proof fn later_channels_keep_the_failure(
    defs: Seq<ChannelView>,
    n: int,
    dep: Seq<char>,
    m: Answers,
)
    requires
        0 <= n <= defs.len(),
        outbound_planned(defs.take(n), dep, m) is Err,
    ensures
        outbound_planned(defs, dep, m) == outbound_planned(defs.take(n), dep, m),
    decreases defs.len() - n,
{
    if n < defs.len() {
        let next = defs.take(n + 1);
        assert(next.drop_last() =~= defs.take(n));
        later_channels_keep_the_failure(defs, n + 1, dep, m);
    } else {
        assert(defs.take(n) =~= defs);
    }
}

fn is_given(s: &Option<String>) -> (r: Option<&String>)
    ensures
        match r {
            Some(t) => given(sources::opt(*s)) == Some(t@),
            None => given(sources::opt(*s)) is None,
        },
{
    match s {
        Some(t) => if text::trim(t).as_str().is_empty() {
            None
        } else {
            Some(t)
        },
        None => None,
    }
}

fn property(m: &TextMap<String>, name: &str) -> (r: Option<String>)
    ensures
        sources::opt(r) == keyed::lookup(m@, name@),
{
    match m.get(name) {
        Some(v) => Some(v.clone()),
        None => None,
    }
}

/// Resolve one outbound channel.
pub fn resolve_outbound<
    K: Fn(ArtifactType, &str) -> String,
    R: Fn(&str) -> Result<String, String>,
    S: Fn(&str) -> bool,
>(def: &ChannelDefinition, dep: &str, outside: &Outside<K, R, S>) -> (r: Result<
    OutboundChannel,
    String,
>)
    requires
        outside.ready(),
    ensures
        forall|m: Answers| #[trigger]
            outside.are(m) ==> match r {
                Ok(o) => outbound_resolved(def@, dep@, m) == Ok::<OutboundView, Seq<char>>(o@),
                Err(e) => outbound_resolved(def@, dep@, m) == Err::<OutboundView, Seq<char>>(e@),
            },
{
    let head = text::text4("Outbound channel '", &def.channel_name, "' of deployment ", dep);
    let transport = match is_given(&def.transport) {
        None => {
            return Err(text::text2(&head, " is invalid: it declares no transport"));
        },
        Some(t) => t,
    };
    let raw = match is_given(&def.bind_spec) {
        None => {
            return Err(text::text2(&head, " is invalid: it declares no 'bind' destination URI"));
        },
        Some(b) => b,
    };
    let place = text::trim(raw);
    let destination = match (outside.resolve)(place.as_str()) {
        Err(e) => {
            return Err(text::text3(&head, ": 'bind' has an unresolved reference: ", &e));
        },
        Ok(d) => d,
    };
    if !(outside.schemed)(destination.as_str()) {
        return Err(
            text::text4(
                &head,
                " is invalid: 'bind' (",
                raw,
                ") has no URI scheme — an outbound destination must be a full URI a MessageSink resolves by scheme (e.g. https://host/path, rabbitmq://exchange/rk, local://<internal-channel>)",
            ),
        );
    }
    let module_key = def.namespace.module_key();
    Ok(
        OutboundChannel {
            name: def.channel_name.clone(),
            transport: transport.clone(),
            destination: transports::expand_local_destination(&destination, &module_key),
            auth_scheme: sources::copy_opt(&def.auth_scheme),
            secret_ref: property(&def.properties, "secret-ref"),
            header: property(&def.properties, "header"),
            cloud_events_mode: match &def.cloud_events_mode {
                Some(mode) => mode.clone(),
                None => "none".to_owned(),
            },
        },
    )
}

/// Resolve the outbound channels.
pub fn plan_outbound<
    K: Fn(ArtifactType, &str) -> String,
    R: Fn(&str) -> Result<String, String>,
    S: Fn(&str) -> bool,
>(definitions: &Vec<ChannelDefinition>, dep: &str, outside: &Outside<K, R, S>) -> (r: Result<
    Vec<OutboundChannel>,
    String,
>)
    requires
        outside.ready(),
    ensures
        forall|m: Answers| #[trigger]
            outside.are(m) ==> match r {
                Ok(v) => outbound_planned(transports::channels(definitions@), dep@, m) == Ok::<
                    Seq<OutboundView>,
                    Seq<char>,
                >(v@.map_values(|o: OutboundChannel| o@)),
                Err(e) => outbound_planned(transports::channels(definitions@), dep@, m) == Err::<
                    Seq<OutboundView>,
                    Seq<char>,
                >(e@),
            },
{
    let mut out: Vec<OutboundChannel> = Vec::new();
    let ghost all = transports::channels(definitions@);
    let mut i: usize = 0;
    assert(out@.map_values(|o: OutboundChannel| o@) =~= Seq::empty());
    while i < definitions.len()
        invariant
            i <= definitions.len(),
            all == transports::channels(definitions@),
            outside.ready(),
            forall|m: Answers| #[trigger]
                outside.are(m) ==> outbound_planned(all.take(i as int), dep@, m) == Ok::<
                    Seq<OutboundView>,
                    Seq<char>,
                >(out@.map_values(|o: OutboundChannel| o@)),
        decreases definitions.len() - i,
    {
        let def = &definitions[i];
        let ghost next = all.take(i + 1);
        let ghost prior = out@.map_values(|o: OutboundChannel| o@);
        assert(next.drop_last() =~= all.take(i as int));
        assert(next.last() == def@);
        if def.outbound {
            match resolve_outbound(def, dep, outside) {
                Err(e) => {
                    assert forall|m: Answers| #[trigger] outside.are(m) implies outbound_planned(
                        all,
                        dep@,
                        m,
                    ) == Err::<Seq<OutboundView>, Seq<char>>(e@) by {
                        assert(outbound_planned(all.take(i as int), dep@, m) == Ok::<
                            Seq<OutboundView>,
                            Seq<char>,
                        >(prior));
                        later_channels_keep_the_failure(all, i + 1, dep@, m);
                    }
                    return Err(e);
                },
                Ok(o) => {
                    let ghost v = o@;
                    out.push(o);
                    assert(out@.map_values(|o: OutboundChannel| o@) =~= prior.push(v));
                },
            }
        }
        assert forall|m: Answers| #[trigger] outside.are(m) implies outbound_planned(
            next,
            dep@,
            m,
        ) == Ok::<Seq<OutboundView>, Seq<char>>(out@.map_values(|o: OutboundChannel| o@)) by {
            assert(outbound_planned(all.take(i as int), dep@, m) == Ok::<
                Seq<OutboundView>,
                Seq<char>,
            >(prior));
        }
        i = i + 1;
    }
    assert(all.take(definitions.len() as int) =~= all);
    Ok(out)
}

// ---- data stores -------------------------------------------------------------------------------

/// What the declared stores are planned as.
pub struct StoresView {
    pub stores: Seq<BindingView>,
    pub coverage: bool,
    pub fault: Option<Seq<char>>,
}

/// The schema folders of a package that hold a schema.
pub open spec fn schema_folders(codecs: Seq<CodecFolder>) -> Seq<Seq<char>>
    decreases codecs.len(),
{
    if codecs.len() == 0 {
        Seq::empty()
    } else {
        let rest = schema_folders(codecs.drop_last());
        if codecs.last().schemas@.len() > 0 {
            rest.push(codecs.last().name@)
        } else {
            rest
        }
    }
}

/// A deployment as far as its stores depend on it.
pub struct StoreContext {
    pub dep: Seq<char>,
    pub migrations: Seq<(Seq<char>, Seq<char>)>,
    pub sealed: bool,
    pub folders: Seq<Seq<char>>,
}

/// The migrations of a store: those that the archive carries, or those in the binding directory.
pub open spec fn store_migrations(d: DeclaredStore, c: StoreContext) -> Result<
    Seq<Seq<char>>,
    Seq<char>,
> {
    if c.sealed {
        stores::package_migrations(c.dep, c.migrations, d.def)
    } else {
        match d.on_disk {
            Ok(v) => Ok(text::texts(v@)),
            Err(e) => Err("migrations of store '"@ + d.def.name@ + "' failed to load: "@ + e@),
        }
    }
}

/// The projection of a store, where it declares a structure.
pub open spec fn store_projection(d: DeclaredStore, c: StoreContext) -> Result<
    Option<ProjectedView>,
    Seq<char>,
> {
    match d.def.structure {
        None => Ok(None),
        Some(structure) => match stores::projection(
            c.folders,
            d.def,
            structure,
            d.projection,
        ) {
            Ok(v) => Ok(Some(v)),
            Err(e) => Err("datastores.yaml of deployment "@ + c.dep + " failed to load: "@ + e),
        },
    }
}

/// One declared store more. A store of another type is left out; the reserved coverage store is
/// bound as such; a store whose connection cannot be resolved is left out too, while one whose
/// migrations or structure are at fault refuses the deployment.
pub open spec fn store_planned(v: StoresView, d: DeclaredStore, c: StoreContext) -> Result<
    StoresView,
    Seq<char>,
> {
    if d.def.store_type@ != "sql"@ {
        Ok(v)
    } else if d.def.name@ == stores::COVERAGE_STORE_NAME@ {
        match d.coverage {
            Ok(_) => Ok(StoresView { coverage: true, ..v }),
            Err(e) => Ok(StoresView { fault: Some(e@), ..v }),
        }
    } else {
        match store_migrations(d, c) {
            Err(e) => Err(e),
            Ok(migrations) => match store_projection(d, c) {
                Err(e) => Err(e),
                Ok(projected) => match stores::backend(
                    d.def.name@,
                    stores::url_answer(d.url),
                    stores::unit_answer(d.opened),
                ) {
                    Err(_) => Ok(v),
                    Ok(dialect) => Ok(
                        StoresView {
                            stores: v.stores.push(
                                BindingView { name: d.def.name@, dialect, migrations, projected },
                            ),
                            ..v
                        },
                    ),
                },
            },
        }
    }
}

/// What the declared stores are planned as, in their order, or the first failure.
pub open spec fn stores_planned(declared: Seq<DeclaredStore>, c: StoreContext) -> Result<
    StoresView,
    Seq<char>,
>
    decreases declared.len(),
{
    if declared.len() == 0 {
        Ok(StoresView { stores: Seq::empty(), coverage: false, fault: None })
    } else {
        match stores_planned(declared.drop_last(), c) {
            Err(e) => Err(e),
            Ok(v) => store_planned(v, declared.last(), c),
        }
    }
}

proof fn later_stores_keep_the_failure(declared: Seq<DeclaredStore>, n: int, c: StoreContext)
    requires
        0 <= n <= declared.len(),
        stores_planned(declared.take(n), c) is Err,
    ensures
        stores_planned(declared, c) == stores_planned(declared.take(n), c),
    decreases declared.len() - n,
{
    if n < declared.len() {
        let next = declared.take(n + 1);
        assert(next.drop_last() =~= declared.take(n));
        later_stores_keep_the_failure(declared, n + 1, c);
    } else {
        assert(declared.take(n) =~= declared);
    }
}

/// The planned stores.
pub struct PlannedStores {
    pub stores: Vec<StoreBinding>,
    pub coverage: bool,
    pub fault: Option<String>,
}

impl View for PlannedStores {
    type V = StoresView;

    open spec fn view(&self) -> StoresView {
        StoresView {
            stores: self.stores@.map_values(|b: StoreBinding| b@),
            coverage: self.coverage,
            fault: sources::opt(self.fault),
        }
    }
}

fn folders_with_schemas(codecs: &Vec<CodecFolder>) -> (r: Vec<String>)
    ensures
        text::texts(r@) == schema_folders(codecs@),
{
    let mut out: Vec<String> = Vec::new();
    let mut i: usize = 0;
    assert(text::texts(out@) =~= schema_folders(codecs@.take(0)));
    while i < codecs.len()
        invariant
            i <= codecs.len(),
            text::texts(out@) == schema_folders(codecs@.take(i as int)),
        decreases codecs.len() - i,
    {
        let ghost next = codecs@.take(i + 1);
        let ghost prior = text::texts(out@);
        assert(next.drop_last() =~= codecs@.take(i as int));
        assert(next.last() == codecs@[i as int]);
        if codecs[i].schemas.len() > 0 {
            out.push(codecs[i].name.clone());
            assert(text::texts(out@) =~= prior.push(codecs@[i as int].name@));
        }
        i = i + 1;
    }
    assert(codecs@.take(codecs.len() as int) =~= codecs@);
    out
}

/// Plan the declared stores. `folders` are the package's schema folders that hold a schema.
pub fn plan_stores(
    declared: &Vec<DeclaredStore>,
    dep: &str,
    migrations: &TextMap<String>,
    sealed: bool,
    folders: &Vec<String>,
) -> (r: Result<PlannedStores, String>)
    ensures
        ({
            let c = StoreContext {
                dep: dep@,
                migrations: migrations@,
                sealed,
                folders: text::texts(folders@),
            };
            match r {
                Ok(p) => stores_planned(declared@, c) == Ok::<StoresView, Seq<char>>(p@),
                Err(e) => stores_planned(declared@, c) == Err::<StoresView, Seq<char>>(e@),
            }
        }),
{
    let ghost c = StoreContext {
        dep: dep@,
        migrations: migrations@,
        sealed,
        folders: text::texts(folders@),
    };
    let mut out = PlannedStores { stores: Vec::new(), coverage: false, fault: None };
    let mut i: usize = 0;
    assert(out@.stores =~= Seq::empty());
    while i < declared.len()
        invariant
            i <= declared.len(),
            c == (StoreContext {
                dep: dep@,
                migrations: migrations@,
                sealed,
                folders: text::texts(folders@),
            }),
            stores_planned(declared@.take(i as int), c) == Ok::<StoresView, Seq<char>>(out@),
        decreases declared.len() - i,
    {
        let d = &declared[i];
        let ghost next = declared@.take(i + 1);
        let ghost prior = out@;
        assert(next.drop_last() =~= declared@.take(i as int));
        assert(next.last() == *d);
        if text::same(&d.def.store_type, "sql") {
            if text::same(&d.def.name, stores::COVERAGE_STORE_NAME) {
                match &d.coverage {
                    Ok(_) => {
                        out.coverage = true;
                    },
                    Err(e) => {
                        out.fault = Some(e.clone());
                    },
                }
            } else {
                let scripts = if sealed {
                    match stores::archive_migrations(dep, migrations, &d.def) {
                        Ok(v) => v,
                        Err(e) => {
                            proof {
                                later_stores_keep_the_failure(declared@, i + 1, c);
                            }
                            return Err(e);
                        },
                    }
                } else {
                    match &d.on_disk {
                        Ok(v) => text::copy_texts(v),
                        Err(e) => {
                            proof {
                                later_stores_keep_the_failure(declared@, i + 1, c);
                            }
                            return Err(
                                text::text4(
                                    "migrations of store '",
                                    &d.def.name,
                                    "' failed to load: ",
                                    e,
                                ),
                            );
                        },
                    }
                };
                let projected = match &d.def.structure {
                    None => None,
                    Some(structure) => match stores::resolve_projected_store(
                        folders,
                        &d.def,
                        structure,
                        &d.projection,
                    ) {
                        Ok(v) => Some(v),
                        Err(e) => {
                            proof {
                                later_stores_keep_the_failure(declared@, i + 1, c);
                            }
                            return Err(
                                text::text4(
                                    "datastores.yaml of deployment ",
                                    dep,
                                    " failed to load: ",
                                    &e,
                                ),
                            );
                        },
                    },
                };
                match stores::build_store_backend(&d.def.name, &d.url, &d.opened) {
                    Err(_) => {},
                    Ok(dialect) => {
                        let b = StoreBinding {
                            name: d.def.name.clone(),
                            dialect,
                            migrations: scripts,
                            projected,
                        };
                        let ghost v = b@;
                        out.stores.push(b);
                        assert(out@.stores =~= prior.stores.push(v));
                    },
                }
            }
        }
        i = i + 1;
    }
    assert(declared@.take(declared.len() as int) =~= declared@);
    Ok(out)
}

// ---- the plan ----------------------------------------------------------------------------------

/// The channels of a loaded deployment, or why they could not be loaded.
pub open spec fn channels_loaded(d: LoadedDeployment) -> Result<Seq<ChannelView>, Seq<char>> {
    match d.channels {
        None => Ok(Seq::empty()),
        Some(Ok(v)) => Ok(bound(transports::channels(v@), d.id@)),
        Some(Err(f)) => Err(
            "channels.yaml of deployment "@ + d.id@ + " failed to load: ["@ + f.code@ + "] "@
                + f.message@,
        ),
    }
}

/// The stores of a loaded deployment as they are planned.
pub open spec fn datastores_planned(d: LoadedDeployment) -> Result<StoresView, Seq<char>> {
    let c = StoreContext {
        dep: d.id@,
        migrations: d.migrations@,
        sealed: d.sealed,
        folders: schema_folders(d.codecs@),
    };
    match d.datastores {
        None => Ok(StoresView { stores: Seq::empty(), coverage: false, fault: None }),
        Some(Ok(v)) => stores_planned(v@, c),
        Some(Err(e)) => Err(
            "datastores.yaml of deployment "@ + d.id@ + " failed to load: "@ + e@,
        ),
    }
}

/// The plan of a deployment. Where several things are at fault the first is reported: the rules,
/// the redactors, the schemas, the channels, their transports, the outbound binds, the stores.
pub open spec fn planned(d: LoadedDeployment, allowed: Seq<Seq<char>>, m: Answers) -> Result<
    PlanView,
    Seq<char>,
> {
    let dep = d.id@;
    match rules_planned(d.rules@, dep, m) {
        Err(e) => Err(e),
        Ok(rules) => match redactors_planned(d.redactors@, dep) {
            Err(e) => Err(e),
            Ok(redactors) => match d.bundles {
                Err(f) => Err(
                    "schemas/ of deployment "@ + dep + " failed to load: ["@ + f.code@ + "] "@
                        + f.message@,
                ),
                Ok(folders) => match channels_loaded(d) {
                    Err(e) => Err(e),
                    Ok(definitions) => match transports::first_refusal(definitions, allowed, dep) {
                        Some(e) => Err(e),
                        None => match outbound_planned(definitions, dep, m) {
                            Err(e) => Err(e),
                            Ok(outbound) => match datastores_planned(d) {
                                Err(e) => Err(e),
                                Ok(s) => Ok(
                                    PlanView {
                                        dep,
                                        namespace: d.namespace@,
                                        modules: d.modules@,
                                        templates: keyed_artifacts(
                                            ArtifactType::Template,
                                            d.templates@,
                                            m,
                                        ),
                                        scripts: keyed_artifacts(
                                            ArtifactType::Script,
                                            d.scripts@,
                                            m,
                                        ),
                                        decisions: rules.decisions,
                                        validators: rules.validators,
                                        srl_validators: rules.srl,
                                        redactors,
                                        codecs: codecs_planned(
                                            d.codecs@,
                                            text::texts(folders@),
                                        ),
                                        codec_bundles: bundles_planned(
                                            text::texts(folders@),
                                            dep,
                                        ),
                                        definitions,
                                        outbound,
                                        stores: s.stores,
                                        coverage: s.coverage,
                                        coverage_fault: s.fault,
                                        openapi_spec: d.api@,
                                    },
                                ),
                            },
                        },
                    },
                },
            },
        },
    }
}

/// Plan a deployment. `allowed` are the permitted transports.
pub fn plan_deployment<
    K: Fn(ArtifactType, &str) -> String,
    R: Fn(&str) -> Result<String, String>,
    S: Fn(&str) -> bool,
>(d: LoadedDeployment, allowed: &TextSet, outside: &Outside<K, R, S>) -> (r: Result<
    DeploymentPlan,
    String,
>)
    requires
        outside.ready(),
    ensures
        forall|m: Answers| #[trigger]
            outside.are(m) ==> match r {
                Ok(p) => planned(d, allowed@, m) == Ok::<PlanView, Seq<char>>(p@),
                Err(e) => planned(d, allowed@, m) == Err::<PlanView, Seq<char>>(e@),
            },
{
    let rules = match plan_rules(&d.rules, &d.id, outside) {
        Ok(p) => p,
        Err(e) => {
            return Err(e);
        },
    };
    let redactors = match plan_redactors(&d.redactors, &d.id) {
        Ok(p) => p,
        Err(e) => {
            return Err(e);
        },
    };
    let folders = match &d.bundles {
        Ok(f) => f,
        Err(f) => {
            let head = text::text4("schemas/ of deployment ", &d.id, " failed to load: [", &f.code);
            return Err(text::text3(&head, "] ", &f.message));
        },
    };
    let codec_bundles = plan_bundles(folders, &d.id);
    let codecs = plan_codecs(&d.codecs, folders);
    let templates = plan_artifacts(ArtifactType::Template, &d.templates, outside);
    let scripts = plan_artifacts(ArtifactType::Script, &d.scripts, outside);
    let with_schemas = folders_with_schemas(&d.codecs);
    let ghost whole = d;
    let definitions = match d.channels {
        None => Vec::new(),
        Some(Ok(v)) => bind_channels(v, &d.id),
        Some(Err(f)) => {
            let head = text::text4(
                "channels.yaml of deployment ",
                &d.id,
                " failed to load: [",
                &f.code,
            );
            return Err(text::text3(&head, "] ", &f.message));
        },
    };
    assert(whole.channels is None ==> transports::channels(definitions@) =~= Seq::empty());
    assert(channels_loaded(whole) == Ok::<Seq<ChannelView>, Seq<char>>(
        transports::channels(definitions@),
    ));
    match transports::reject_disallowed_transports(&definitions, allowed, &d.id) {
        Ok(_) => {},
        Err(e) => {
            return Err(e);
        },
    }
    let outbound = match plan_outbound(&definitions, &d.id, outside) {
        Ok(o) => o,
        Err(e) => {
            return Err(e);
        },
    };
    let planned_stores = match &d.datastores {
        None => PlannedStores { stores: Vec::new(), coverage: false, fault: None },
        Some(Ok(v)) => match plan_stores(v, &d.id, &d.migrations, d.sealed, &with_schemas) {
            Ok(p) => p,
            Err(e) => {
                return Err(e);
            },
        },
        Some(Err(e)) => {
            return Err(
                text::text4("datastores.yaml of deployment ", &d.id, " failed to load: ", e),
            );
        },
    };
    assert(d.datastores is None ==> planned_stores@.stores =~= Seq::empty());
    assert(datastores_planned(whole) == Ok::<StoresView, Seq<char>>(planned_stores@));
    Ok(
        DeploymentPlan {
            dep: d.id,
            namespace: d.namespace,
            modules: d.modules,
            templates,
            scripts,
            decisions: rules.decisions,
            validators: rules.validators,
            srl_validators: rules.srl,
            redactors,
            codecs,
            codec_bundles,
            definitions,
            outbound,
            stores: planned_stores.stores,
            coverage: planned_stores.coverage,
            coverage_fault: planned_stores.fault,
            openapi_spec: d.api,
        },
    )
}

impl DeploymentPlan {
    /// What the nodes of this deployment's processes can host.
    pub fn node_index(&self) -> (r: DeploymentNodeIndex)
        ensures
            r@ == graph::with_modules(self.modules@),
    {
        DeploymentNodeIndex::of_modules(&self.modules)
    }

    /// The schedules that this deployment arms when it becomes active, from the timers of its start
    /// events.
    pub fn timer_schedules(&self, timers: &Vec<TimerStart>) -> (r: Vec<TimerScheduleArming>)
        ensures
            schedules::armings(r@) == schedules::scheduled(timers@, self.namespace@),
    {
        schedules::timer_schedules(timers, &self.namespace)
    }
}

} // verus!
