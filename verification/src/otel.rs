//! Telemetry: what is exported, where to, and with which dimensions.
//!
//! Telemetry is fail-open. A bad value falls back to its default and leaves a warning; it never
//! refuses a boot.

use vstd::prelude::*;

use crate::keyed;
use crate::sources::{Inputs, Sources};
use crate::sources;
use crate::text;

verus! {

/// Metrics temporality preference.
#[derive(Debug, Clone, Copy, PartialEq, Eq, Structural)]
pub enum TemporalityPreference {
    Cumulative,
    Delta,
    LowMemory,
}

impl Default for TemporalityPreference {
    fn default() -> (r: TemporalityPreference)
        ensures
            r == TemporalityPreference::Cumulative,
    {
        TemporalityPreference::Cumulative
    }
}

/// The preference that `raw` names, in either case of letters.
pub open spec fn temporality(raw: Seq<char>) -> Option<TemporalityPreference> {
    let word = text::lowered(text::trimmed(raw));
    if word == "cumulative"@ {
        Some(TemporalityPreference::Cumulative)
    } else if word == "delta"@ {
        Some(TemporalityPreference::Delta)
    } else if word == "lowmemory"@ {
        Some(TemporalityPreference::LowMemory)
    } else {
        None
    }
}

impl TemporalityPreference {
    /// Parse `cumulative`, `delta` or `lowmemory`.
    pub fn parse(raw: &str) -> (r: Option<TemporalityPreference>)
        ensures
            r == temporality(raw@),
    {
        let word = text::to_lower(&text::trim(raw));
        if text::same(&word, "cumulative") {
            Some(TemporalityPreference::Cumulative)
        } else if text::same(&word, "delta") {
            Some(TemporalityPreference::Delta)
        } else if text::same(&word, "lowmemory") {
            Some(TemporalityPreference::LowMemory)
        } else {
            None
        }
    }
}

/// Resolved telemetry configuration. A canonical environment name comes before a standard one, and
/// both before the file. Without an endpoint telemetry is off.
#[derive(Debug, Clone, PartialEq, Eq)]
pub struct TelemetryConfig {
    /// The OTLP endpoint.
    pub otlp_endpoint: Option<String>,
    pub service_name: String,
    pub metrics_temporality: TemporalityPreference,
    /// Metric export interval in milliseconds.
    pub metrics_export_interval_ms: Option<u64>,
    /// The labels that instance and coverage meters carry as dimensions.
    pub metric_labels: Vec<String>,
    /// The kill switch.
    pub enabled: bool,
    /// What could not be resolved or parsed.
    pub warnings: Vec<String>,
}

/// The contents of a [`TelemetryConfig`].
pub struct TelemetryConfigView {
    pub otlp_endpoint: Option<Seq<char>>,
    pub service_name: Seq<char>,
    pub metrics_temporality: TemporalityPreference,
    pub metrics_export_interval_ms: Option<u64>,
    pub metric_labels: Seq<Seq<char>>,
    pub enabled: bool,
    pub warnings: Seq<Seq<char>>,
}

impl View for TelemetryConfig {
    type V = TelemetryConfigView;

    open spec fn view(&self) -> TelemetryConfigView {
        TelemetryConfigView {
            otlp_endpoint: sources::opt(self.otlp_endpoint),
            service_name: self.service_name@,
            metrics_temporality: self.metrics_temporality,
            metrics_export_interval_ms: self.metrics_export_interval_ms,
            metric_labels: text::texts(self.metric_labels@),
            enabled: self.enabled,
            warnings: text::texts(self.warnings@),
        }
    }
}

/// The labels used where none are configured.
pub open spec fn standard_labels() -> Seq<Seq<char>> {
    seq!["tenant"@, "module"@, "version"@]
}

/// The labels used where none are configured.
pub fn default_metric_labels() -> (r: Vec<String>)
    ensures
        text::texts(r@) == standard_labels(),
{
    let mut out: Vec<String> = Vec::new();
    out.push("tenant".to_owned());
    out.push("module".to_owned());
    out.push("version".to_owned());
    assert(text::texts(out@) =~= standard_labels());
    out
}

impl Default for TelemetryConfig {
    fn default() -> (r: TelemetryConfig)
        ensures
            r@ == (TelemetryConfigView {
                otlp_endpoint: None,
                service_name: "sutra-engine"@,
                metrics_temporality: TemporalityPreference::Cumulative,
                metrics_export_interval_ms: None,
                metric_labels: standard_labels(),
                enabled: true,
                warnings: Seq::empty(),
            }),
    {
        let r = TelemetryConfig {
            otlp_endpoint: None,
            service_name: "sutra-engine".to_owned(),
            metrics_temporality: TemporalityPreference::Cumulative,
            metrics_export_interval_ms: None,
            metric_labels: default_metric_labels(),
            enabled: true,
            warnings: Vec::new(),
        };
        assert(r@.warnings =~= Seq::empty());
        r
    }
}

// ---- resolution --------------------------------------------------------------------------------

impl Inputs {
    /// The value of a telemetry key as it is written: of the canonical environment name, else of
    /// the standard one where there is one, else of the file.
    pub open spec fn telemetry_raw(
        self,
        key: Seq<char>,
        canonical: Seq<char>,
        standard: Option<Seq<char>>,
    ) -> Option<Seq<char>> {
        match (self.env)(canonical) {
            Some(v) => Some(v),
            None => match standard {
                Some(name) => match (self.env)(name) {
                    Some(v) => Some(v),
                    None => keyed::lookup(self.file, key),
                },
                None => keyed::lookup(self.file, key),
            },
        }
    }

    /// The value of a telemetry key; one whose references do not resolve is not set.
    pub open spec fn telemetry_value(
        self,
        key: Seq<char>,
        canonical: Seq<char>,
        standard: Option<Seq<char>>,
    ) -> Option<Seq<char>> {
        match self.telemetry_raw(key, canonical, standard) {
            Some(raw) => match (self.resolve)(raw) {
                Ok(v) => Some(v),
                Err(_) => None,
            },
            None => None,
        }
    }

    /// The warning about a telemetry key whose references do not resolve.
    pub open spec fn telemetry_warning(
        self,
        key: Seq<char>,
        canonical: Seq<char>,
        standard: Option<Seq<char>>,
    ) -> Seq<Seq<char>> {
        match self.telemetry_raw(key, canonical, standard) {
            Some(raw) => match (self.resolve)(raw) {
                Ok(_) => Seq::empty(),
                Err(e) => seq!["telemetry key '"@ + key + "': "@ + e + " — value ignored"@],
            },
            None => Seq::empty(),
        }
    }
}

/// A text without white space around it, `None` where nothing is left.
pub open spec fn nonempty_trimmed(v: Option<Seq<char>>) -> Option<Seq<char>> {
    match v {
        Some(s) => if text::trimmed(s).len() > 0 {
            Some(text::trimmed(s))
        } else {
            None
        },
        None => None,
    }
}

/// The parts of a comma-separated list that are not blank, without white space around them.
pub open spec fn label_list(parts: Seq<Seq<char>>) -> Seq<Seq<char>>
    decreases parts.len(),
{
    if parts.len() == 0 {
        Seq::empty()
    } else {
        let prior = label_list(parts.drop_last());
        if text::trimmed(parts.last()).len() > 0 {
            prior.push(text::trimmed(parts.last()))
        } else {
            prior
        }
    }
}

/// The endpoint's value.
pub open spec fn endpoint_value(m: Inputs) -> Option<Seq<char>> {
    m.telemetry_value(
        "sutra.telemetry.otlp.endpoint"@,
        "SUTRA_TELEMETRY_OTLP_ENDPOINT"@,
        Some("OTEL_EXPORTER_OTLP_ENDPOINT"@),
    )
}

/// The service name's value.
pub open spec fn service_value(m: Inputs) -> Option<Seq<char>> {
    m.telemetry_value(
        "sutra.telemetry.service-name"@,
        "SUTRA_TELEMETRY_SERVICE_NAME"@,
        Some("OTEL_SERVICE_NAME"@),
    )
}

/// The temporality preference's value.
pub open spec fn temporality_value(m: Inputs) -> Option<Seq<char>> {
    m.telemetry_value(
        "sutra.telemetry.metrics.temporality-preference"@,
        "SUTRA_TELEMETRY_METRICS_TEMPORALITY_PREFERENCE"@,
        Some("OTEL_EXPORTER_OTLP_METRICS_TEMPORALITY_PREFERENCE"@),
    )
}

/// The export interval's value.
pub open spec fn interval_value(m: Inputs) -> Option<Seq<char>> {
    m.telemetry_value(
        "sutra.telemetry.metrics.export-interval"@,
        "SUTRA_TELEMETRY_METRICS_EXPORT_INTERVAL"@,
        Some("OTEL_METRIC_EXPORT_INTERVAL"@),
    )
}

/// The label list's value.
pub open spec fn labels_value(m: Inputs) -> Option<Seq<char>> {
    m.telemetry_value(
        "sutra.telemetry.metric-labels"@,
        "SUTRA_TELEMETRY_METRIC_LABELS"@,
        None,
    )
}

/// The switch's value.
pub open spec fn enabled_value(m: Inputs) -> Option<Seq<char>> {
    m.telemetry_value("sutra.telemetry.enabled"@, "SUTRA_TELEMETRY_ENABLED"@, None)
}

/// The milliseconds that an export interval names, where it is a positive count.
pub open spec fn positive_millis(raw: Seq<char>) -> Option<u64> {
    match text::unsigned(text::trimmed(raw), u64::MAX as nat) {
        Some(n) => if n > 0 {
            Some(n as u64)
        } else {
            None
        },
        None => None,
    }
}

/// The warning about a temporality preference that names none.
pub open spec fn temporality_warning(v: Option<Seq<char>>) -> Seq<Seq<char>> {
    match v {
        Some(raw) => if temporality(raw) is None {
            seq![
                "telemetry temporality preference '"@ + raw
                    + "' is not cumulative|delta|lowmemory — using cumulative"@,
            ]
        } else {
            Seq::empty()
        },
        None => Seq::empty(),
    }
}

/// The warning about an export interval that is no positive count.
pub open spec fn interval_warning(v: Option<Seq<char>>) -> Seq<Seq<char>> {
    match v {
        Some(raw) => if positive_millis(raw) is None {
            seq![
                "telemetry metric export interval '"@ + raw
                    + "' is not a positive millisecond count — using the SDK default"@,
            ]
        } else {
            Seq::empty()
        },
        None => Seq::empty(),
    }
}

/// The warnings that a resolution leaves, in the order of the keys.
pub open spec fn telemetry_warnings(m: Inputs) -> Seq<Seq<char>> {
    m.telemetry_warning(
        "sutra.telemetry.otlp.endpoint"@,
        "SUTRA_TELEMETRY_OTLP_ENDPOINT"@,
        Some("OTEL_EXPORTER_OTLP_ENDPOINT"@),
    ) + m.telemetry_warning(
        "sutra.telemetry.service-name"@,
        "SUTRA_TELEMETRY_SERVICE_NAME"@,
        Some("OTEL_SERVICE_NAME"@),
    ) + m.telemetry_warning(
        "sutra.telemetry.metrics.temporality-preference"@,
        "SUTRA_TELEMETRY_METRICS_TEMPORALITY_PREFERENCE"@,
        Some("OTEL_EXPORTER_OTLP_METRICS_TEMPORALITY_PREFERENCE"@),
    ) + temporality_warning(temporality_value(m)) + m.telemetry_warning(
        "sutra.telemetry.metrics.export-interval"@,
        "SUTRA_TELEMETRY_METRICS_EXPORT_INTERVAL"@,
        Some("OTEL_METRIC_EXPORT_INTERVAL"@),
    ) + interval_warning(interval_value(m)) + m.telemetry_warning(
        "sutra.telemetry.metric-labels"@,
        "SUTRA_TELEMETRY_METRIC_LABELS"@,
        None,
    ) + m.telemetry_warning("sutra.telemetry.enabled"@, "SUTRA_TELEMETRY_ENABLED"@, None)
}

/// Whether the standard switch turns telemetry off.
pub open spec fn sdk_disabled(m: Inputs) -> bool {
    match (m.env)("OTEL_SDK_DISABLED"@) {
        Some(v) => text::lowered(text::trimmed(v)) == "true"@,
        None => false,
    }
}

/// The telemetry configuration that the sources give.
pub open spec fn telemetry(m: Inputs) -> TelemetryConfigView {
    TelemetryConfigView {
        otlp_endpoint: nonempty_trimmed(endpoint_value(m)),
        service_name: match nonempty_trimmed(service_value(m)) {
            Some(s) => s,
            None => "sutra-engine"@,
        },
        metrics_temporality: match temporality_value(m) {
            Some(raw) => match temporality(raw) {
                Some(t) => t,
                None => TemporalityPreference::Cumulative,
            },
            None => TemporalityPreference::Cumulative,
        },
        metrics_export_interval_ms: match interval_value(m) {
            Some(raw) => positive_millis(raw),
            None => None,
        },
        metric_labels: match labels_value(m) {
            Some(raw) => label_list(text::pieces(raw, ',')),
            None => standard_labels(),
        },
        enabled: !sdk_disabled(m) && match enabled_value(m) {
            Some(raw) => text::lowered(text::trimmed(raw)) != "false"@,
            None => true,
        },
        warnings: telemetry_warnings(m),
    }
}

impl TelemetryConfigView {
    /// Whether telemetry exports.
    pub open spec fn active(self) -> bool {
        self.enabled && self.otlp_endpoint is Some
    }
}

/// Without an endpoint in any source, or with the standard switch on, nothing is exported.
pub proof fn telemetry_is_off_without_an_endpoint(m: Inputs)
    ensures
        endpoint_value(m) is None ==> !telemetry(m).active(),
        sdk_disabled(m) ==> !telemetry(m).active(),
{
}

fn trimmed_nonempty(v: Option<String>) -> (r: Option<String>)
    ensures
        sources::opt(r) == nonempty_trimmed(sources::opt(v)),
{
    match v {
        Some(s) => {
            let t = text::trim(&s);
            if t.as_str().is_empty() {
                None
            } else {
                Some(t)
            }
        },
        None => None,
    }
}

fn labels_of(raw: &str) -> (r: Vec<String>)
    ensures
        text::texts(r@) == label_list(text::pieces(raw@, ',')),
{
    let parts = text::split(raw, ',');
    let ghost all = text::texts(parts@);
    let mut out: Vec<String> = Vec::new();
    let mut i: usize = 0;
    assert(text::texts(out@) =~= Seq::empty());
    while i < parts.len()
        invariant
            i <= parts.len(),
            all == text::texts(parts@),
            text::texts(out@) == label_list(all.take(i as int)),
        decreases parts.len() - i,
    {
        let ghost next = all.take(i + 1);
        assert(next.drop_last() =~= all.take(i as int));
        assert(next.last() == parts@[i as int]@);
        let label = text::trim(&parts[i]);
        if !label.as_str().is_empty() {
            let ghost prior = out@;
            let ghost l = label@;
            out.push(label);
            assert(text::texts(out@) =~= text::texts(prior).push(l));
        }
        i = i + 1;
    }
    assert(all.take(all.len() as int) =~= all);
    out
}

proof fn texts_push(v: Seq<String>, s: String)
    ensures
        text::texts(v.push(s)) == text::texts(v) + seq![s@],
{
    assert(text::texts(v.push(s)) =~= text::texts(v) + seq![s@]);
}

impl<
    'a,
    E: Fn(&str) -> Option<String>,
    R: Fn(&str) -> Result<String, String>,
    M: Fn(&str, u64) -> Option<u64>,
> Sources<'a, E, R, M> {
    /// The value of a telemetry key; one that does not resolve leaves a warning.
    fn telemetry_key(
        &self,
        key: &str,
        canonical: &str,
        standard: Option<&str>,
        warnings: &mut Vec<String>,
    ) -> (r: Option<String>)
        requires
            self.ready(),
        ensures
            forall|m: Inputs| #[trigger]
                self.are(m) ==> {
                    let s = match standard {
                        Some(n) => Some(n@),
                        None => None,
                    };
                    &&& sources::opt(r) == m.telemetry_value(key@, canonical@, s)
                    &&& text::texts(final(warnings)@) == text::texts(old(warnings)@)
                        + m.telemetry_warning(key@, canonical@, s)
                },
    {
        let ghost start = text::texts(warnings@);
        assert(start + Seq::<Seq<char>>::empty() =~= start);
        let first = (self.env)(canonical);
        let found = match first {
            Some(v) => Some(v),
            None => {
                let second = match standard {
                    Some(n) => (self.env)(n),
                    None => None,
                };
                match second {
                    Some(v) => Some(v),
                    None => match self.file.get(key) {
                        Some(v) => Some(v.clone()),
                        None => None,
                    },
                }
            },
        };
        match found {
            None => None,
            Some(raw) => match (self.resolve)(raw.as_str()) {
                Ok(v) => Some(v),
                Err(e) => {
                    let ghost prior = warnings@;
                    let warning = text::text5("telemetry key '", key, "': ", &e, " — value ignored");
                    warnings.push(warning);
                    proof {
                        texts_push(prior, warning);
                    }
                    None
                },
            },
        }
    }
}

impl TelemetryConfig {
    /// Resolve telemetry from explicit sources. This never fails.
    pub fn from_sources<
        'a,
        E: Fn(&str) -> Option<String>,
        R: Fn(&str) -> Result<String, String>,
        M: Fn(&str, u64) -> Option<u64>,
    >(from: &Sources<'a, E, R, M>) -> (r: TelemetryConfig)
        requires
            from.ready(),
        ensures
            forall|m: Inputs| #[trigger] from.are(m) ==> r@ == telemetry(m),
    {
        let mut warnings: Vec<String> = Vec::new();
        assert(text::texts(warnings@) =~= Seq::empty());
        let otlp_endpoint = trimmed_nonempty(
            from.telemetry_key(
                "sutra.telemetry.otlp.endpoint",
                "SUTRA_TELEMETRY_OTLP_ENDPOINT",
                Some("OTEL_EXPORTER_OTLP_ENDPOINT"),
                &mut warnings,
            ),
        );
        let service_name = match trimmed_nonempty(
            from.telemetry_key(
                "sutra.telemetry.service-name",
                "SUTRA_TELEMETRY_SERVICE_NAME",
                Some("OTEL_SERVICE_NAME"),
                &mut warnings,
            ),
        ) {
            Some(s) => s,
            None => "sutra-engine".to_owned(),
        };
        let preference = from.telemetry_key(
            "sutra.telemetry.metrics.temporality-preference",
            "SUTRA_TELEMETRY_METRICS_TEMPORALITY_PREFERENCE",
            Some("OTEL_EXPORTER_OTLP_METRICS_TEMPORALITY_PREFERENCE"),
            &mut warnings,
        );
        let ghost at_preference = text::texts(warnings@);
        let metrics_temporality = match &preference {
            None => TemporalityPreference::Cumulative,
            Some(raw) => match TemporalityPreference::parse(raw) {
                Some(t) => t,
                None => {
                    let ghost prior = warnings@;
                    let warning = text::text3(
                        "telemetry temporality preference '",
                        raw,
                        "' is not cumulative|delta|lowmemory — using cumulative",
                    );
                    warnings.push(warning);
                    proof {
                        texts_push(prior, warning);
                    }
                    TemporalityPreference::Cumulative
                },
            },
        };
        assert(text::texts(warnings@) =~= at_preference + temporality_warning(
            sources::opt(preference),
        ));
        let interval = from.telemetry_key(
            "sutra.telemetry.metrics.export-interval",
            "SUTRA_TELEMETRY_METRICS_EXPORT_INTERVAL",
            Some("OTEL_METRIC_EXPORT_INTERVAL"),
            &mut warnings,
        );
        let ghost at_interval = text::texts(warnings@);
        let metrics_export_interval_ms: Option<u64> = match &interval {
            None => None,
            Some(raw) => {
                let parsed = match text::parse_unsigned(&text::trim(raw), u64::MAX) {
                    Some(ms) => if ms > 0 {
                        Some(ms)
                    } else {
                        None
                    },
                    None => None,
                };
                if parsed.is_none() {
                    let ghost prior = warnings@;
                    let warning = text::text3(
                        "telemetry metric export interval '",
                        raw,
                        "' is not a positive millisecond count — using the SDK default",
                    );
                    warnings.push(warning);
                    proof {
                        texts_push(prior, warning);
                    }
                }
                parsed
            },
        };
        assert(text::texts(warnings@) =~= at_interval + interval_warning(sources::opt(interval)));
        let metric_labels = match from.telemetry_key(
            "sutra.telemetry.metric-labels",
            "SUTRA_TELEMETRY_METRIC_LABELS",
            None,
            &mut warnings,
        ) {
            None => default_metric_labels(),
            Some(raw) => labels_of(&raw),
        };
        let switched_on = match from.telemetry_key(
            "sutra.telemetry.enabled",
            "SUTRA_TELEMETRY_ENABLED",
            None,
            &mut warnings,
        ) {
            None => true,
            Some(raw) => !text::same(&text::to_lower(&text::trim(&raw)), "false"),
        };
        let killed = match (from.env)("OTEL_SDK_DISABLED") {
            Some(v) => text::same(&text::to_lower(&text::trim(&v)), "true"),
            None => false,
        };
        TelemetryConfig {
            otlp_endpoint,
            service_name,
            metrics_temporality,
            metrics_export_interval_ms,
            metric_labels,
            enabled: !killed && switched_on,
            warnings,
        }
    }

    /// Telemetry exports exactly where it is enabled and an endpoint is configured.
    pub fn is_active(&self) -> (r: bool)
        ensures
            r == self@.active(),
            r == (self.enabled && self.otlp_endpoint is Some),
    {
        self.enabled && self.otlp_endpoint.is_some()
    }

    /// The label allowlist that the metrics listener is registered with, `None` where it is not
    /// registered.
    pub fn metrics_wiring(&self) -> (r: Option<Vec<String>>)
        ensures
            match r {
                Some(labels) => self@.active() && text::texts(labels@) == self@.metric_labels,
                None => !self@.active(),
            },
    {
        if self.is_active() {
            Some(text::copy_texts(&self.metric_labels))
        } else {
            None
        }
    }
}

} // verus!
