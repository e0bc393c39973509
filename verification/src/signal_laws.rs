//! What the engine exports of itself: signals, log lines, measurements and audit rows.

use vstd::prelude::*;

use crate::audit;
use crate::audit::{AttributeView, AuditEvent, AuditEventRow};
use crate::keyed;
use crate::metrics;
use crate::metrics::{
    BouncePoint, CoverageMetaView, CoveragePointView, CoverageStateView, InitialCoverage,
    InstanceEvent, InstanceEventView, LaneCounts, LaneMeter, ListenerView,
};
use crate::otel;
use crate::otel::{TelemetryConfigView, TemporalityPreference};
use crate::outside;
use crate::sources;
use crate::sources::Inputs;
use crate::telemetry;
use crate::telemetry::{ExporterAnswers, Moment, Telemetry};
use crate::text;
use crate::text_laws;

verus! {

// ---- telemetry ---------------------------------------------------------------------------------

/// A signal is live exactly where telemetry is on and its own exporter came up.
pub proof fn each_signal_needs_its_exporter(cfg: TelemetryConfigView, answers: ExporterAnswers)
    ensures
        ({
            let on = cfg.enabled && cfg.otlp_endpoint is Some;
            let t = telemetry::live(cfg, answers);
            &&& t.traces <==> on && answers.traces is Ok
            &&& t.metrics <==> on && answers.metrics is Ok
            &&& t.logs <==> on && answers.logs is Ok
        }),
{
}

/// Every exporter that did not come up is told, of its own signal, in the order spans, metrics,
/// logs, behind what the configuration warned of and before what the subscriber says.
pub proof fn each_lost_exporter_is_told(
    cfg: TelemetryConfigView,
    answers: ExporterAnswers,
    installed: Result<(), String>,
)
    ensures
        ({
            let w = telemetry::warnings_of(cfg, answers, installed);
            let on = cfg.enabled && cfg.otlp_endpoint is Some;
            let lost = (if on && answers.traces is Err {
                1int
            } else {
                0
            }) + (if on && answers.metrics is Err {
                1int
            } else {
                0
            }) + (if on && answers.logs is Err {
                1int
            } else {
                0
            });
            &&& w.len() == cfg.warnings.len() + lost + if installed is Err {
                1int
            } else {
                0
            }
            &&& forall|i: int|
                0 <= i < cfg.warnings.len() ==> (#[trigger] w[i]) == cfg.warnings[i]
            &&& on && answers.traces is Err ==> w[cfg.warnings.len() as int] == "OTLP "@ + "span"@
                + " exporter unavailable ("@ + "traces"@ + " off): "@ + answers.traces->Err_0@
            &&& on && answers.traces is Ok && answers.metrics is Err ==> w[
                cfg.warnings.len() as int
            ] == "OTLP "@ + "metric"@ + " exporter unavailable ("@ + "metrics"@ + " off): "@
                + answers.metrics->Err_0@
            &&& on && answers.logs is Err ==> w[cfg.warnings.len() + lost - 1] == "OTLP "@ + "log"@
                + " exporter unavailable ("@ + "OTLP logs"@ + " off): "@ + answers.logs->Err_0@
            &&& installed is Err ==> w.last()
                == "global tracing subscriber already installed — telemetry layers not attached to it ("@
                + installed->Err_0@ + ")"@
        }),
{
}

/// What the exporters themselves log is not exported again.
pub proof fn exporters_do_not_export_themselves(rest: Seq<char>, target: Seq<char>)
    ensures
        !telemetry::exported_target("opentelemetry"@ + rest),
        !telemetry::exported_target("tonic"@ + rest),
        !telemetry::exported_target("h2"@ + rest),
        !telemetry::exported_target("hyper"@ + rest),
        !telemetry::exported_target("tower"@ + rest),
        !text::begins(target, "opentelemetry"@) && !text::begins(target, "tonic"@) && !text::begins(
            target,
            "h2"@,
        ) && !text::begins(target, "hyper"@) && !text::begins(target, "tower"@)
            ==> telemetry::exported_target(target),
{
    text_laws::a_whole_begins_and_ends_with_its_parts("opentelemetry"@, rest, 0);
    text_laws::a_whole_begins_and_ends_with_its_parts("tonic"@, rest, 0);
    text_laws::a_whole_begins_and_ends_with_its_parts("h2"@, rest, 0);
    text_laws::a_whole_begins_and_ends_with_its_parts("hyper"@, rest, 0);
    text_laws::a_whole_begins_and_ends_with_its_parts("tower"@, rest, 0);
}

/// A padded number fills its width with zeros in front and reads as the number.
pub proof fn a_padded_number_fills_its_width(n: nat, width: nat)
    ensures
        telemetry::padded(n, width).len() >= width,
        text::decimal(n).len() >= width ==> telemetry::padded(n, width) == text::decimal(n),
        text::decimal(n).len() < width ==> telemetry::padded(n, width).len() == width
            && text::finishes(telemetry::padded(n, width), text::decimal(n)) && forall|i: int|
            0 <= i < width - text::decimal(n).len() ==> (#[trigger] telemetry::padded(n, width)[i])
                == '0',
{
    let d = text::decimal(n);
    let p = telemetry::padded(n, width);
    if d.len() < width {
        assert(p.skip(p.len() - d.len()) =~= d);
    } else {
        assert(p =~= d);
    }
}

/// A moment of an ordinary year is written in fixed places: the year, the month and the day, the
/// hour, the minute, the second and the millisecond each read from its own place as themselves, with
/// the signs between and the offset behind.
pub proof fn a_timestamp_reads_as_its_moment(m: Moment)
    requires
        0 <= m.year < 10_000,
        m.month < 100 && m.day < 100 && m.hour < 100 && m.minute < 100 && m.second < 100,
        m.millisecond < 1000,
    ensures
        ({
            let t = telemetry::timestamp_of(m);
            &&& t.len() == 29
            &&& text::number(t.subrange(0, 4)) == m.year
            &&& text::number(t.subrange(5, 7)) == m.month
            &&& text::number(t.subrange(8, 10)) == m.day
            &&& text::number(t.subrange(11, 13)) == m.hour
            &&& text::number(t.subrange(14, 16)) == m.minute
            &&& text::number(t.subrange(17, 19)) == m.second
            &&& text::number(t.subrange(20, 23)) == m.millisecond
            &&& t[4] == '-' && t[7] == '-' && t[10] == 'T' && t[13] == ':' && t[16] == ':' && t[19]
                == '.'
            &&& t.subrange(23, 29) == "+00:00"@
        }),
{
    reveal_strlit("-");
    reveal_strlit("T");
    reveal_strlit(":");
    reveal_strlit(".");
    reveal_strlit("+00:00");
    padded_reads(m.year as nat, 4);
    padded_reads(m.month as nat, 2);
    padded_reads(m.day as nat, 2);
    padded_reads(m.hour as nat, 2);
    padded_reads(m.minute as nat, 2);
    padded_reads(m.second as nat, 2);
    padded_reads(m.millisecond as nat, 3);
    let t = telemetry::timestamp_of(m);
    assert(t.subrange(0, 4) =~= telemetry::padded(m.year as nat, 4));
    assert(t.subrange(5, 7) =~= telemetry::padded(m.month as nat, 2));
    assert(t.subrange(8, 10) =~= telemetry::padded(m.day as nat, 2));
    assert(t.subrange(11, 13) =~= telemetry::padded(m.hour as nat, 2));
    assert(t.subrange(14, 16) =~= telemetry::padded(m.minute as nat, 2));
    assert(t.subrange(17, 19) =~= telemetry::padded(m.second as nat, 2));
    assert(t.subrange(20, 23) =~= telemetry::padded(m.millisecond as nat, 3));
    assert(t.subrange(23, 29) =~= "+00:00"@);
}

/// A year before the common era is written with a minus sign, one of more than four digits with a
/// plus sign; the number behind the sign is the year's.
pub proof fn an_odd_year_has_its_sign(year: i32)
    ensures
        ({
            let t = telemetry::year_text(year);
            &&& year < 0 ==> t[0] == '-' && text::number(t.skip(1)) == -(year as int)
            &&& year >= 10_000 ==> t[0] == '+' && text::number(t.skip(1)) == year
        }),
{
    reveal_strlit("-");
    reveal_strlit("+");
    let t = telemetry::year_text(year);
    if year < 0 {
        let n = (-(year as int)) as nat;
        zeros_read_as_nothing(n, 4);
        assert(t.skip(1) =~= telemetry::padded(n, 4));
    } else if year >= 10_000 {
        zeros_read_as_nothing(year as nat, 4);
        assert(t.skip(1) =~= telemetry::padded(year as nat, 4));
    }
}

proof fn zeros_in_front(z: nat, d: Seq<char>)
    ensures
        text::number(Seq::new(z, |i: int| '0') + d) == text::number(d),
    decreases z + d.len(),
{
    let zeros = Seq::new(z, |i: int| '0');
    let s = zeros + d;
    if d.len() > 0 {
        zeros_in_front(z, d.drop_last());
        assert(s.drop_last() =~= zeros + d.drop_last());
        assert(s.last() == d.last());
    } else if z > 0 {
        let fewer = Seq::new((z - 1) as nat, |i: int| '0');
        zeros_in_front((z - 1) as nat, d);
        assert(s.drop_last() =~= fewer + d);
        assert(s.last() == '0');
        assert(text::number(d) == 0);
    } else {
        assert(s =~= d);
    }
}

proof fn zeros_read_as_nothing(n: nat, width: nat)
    ensures
        text::number(telemetry::padded(n, width)) == n,
{
    text_laws::a_number_reads_back(n);
    let d = text::decimal(n);
    let z: nat = if d.len() < width {
        (width - d.len()) as nat
    } else {
        0
    };
    zeros_in_front(z, d);
}

proof fn padded_reads(n: nat, width: nat)
    requires
        (width == 2 && n < 100) || (width == 3 && n < 1000) || (width == 4 && n < 10_000),
    ensures
        telemetry::padded(n, width).len() == width,
        text::number(telemetry::padded(n, width)) == n,
{
    reveal_with_fuel(text::decimal, 5);
    assert(text::decimal(n).len() <= width);
    a_padded_number_fills_its_width(n, width);
    zeros_read_as_nothing(n, width);
}

// ---- the telemetry configuration ---------------------------------------------------------------

/// A telemetry setting is the engine's own variable before the standard one before the file; what
/// does not resolve is no value and is warned of.
pub proof fn the_engines_variable_comes_first(
    m: Inputs,
    key: Seq<char>,
    canonical: Seq<char>,
    standard: Option<Seq<char>>,
)
    ensures
        ({
            let found = if (m.env)(canonical) is Some {
                (m.env)(canonical)
            } else if standard is Some && (m.env)(standard->0) is Some {
                (m.env)(standard->0)
            } else {
                keyed::lookup(m.file, key)
            };
            match found {
                None => m.telemetry_value(key, canonical, standard) is None && m.telemetry_warning(
                    key,
                    canonical,
                    standard,
                ).len() == 0,
                Some(raw) => match (m.resolve)(raw) {
                    Ok(v) => m.telemetry_value(key, canonical, standard) == Some(v)
                        && m.telemetry_warning(key, canonical, standard).len() == 0,
                    Err(e) => m.telemetry_value(key, canonical, standard) is None
                        && m.telemetry_warning(key, canonical, standard) == seq![
                        "telemetry key '"@ + key + "': "@ + e + " — value ignored"@,
                    ],
                },
            }
        }),
{
}

/// Each part of the telemetry configuration comes from its own key and its own variables, and has
/// its own default.
pub proof fn each_telemetry_part_has_its_own_key(m: Inputs)
    ensures
        ({
            let t = otel::telemetry(m);
            let endpoint = m.telemetry_value(
                "sutra.telemetry.otlp.endpoint"@,
                "SUTRA_TELEMETRY_OTLP_ENDPOINT"@,
                Some("OTEL_EXPORTER_OTLP_ENDPOINT"@),
            );
            let service = m.telemetry_value(
                "sutra.telemetry.service-name"@,
                "SUTRA_TELEMETRY_SERVICE_NAME"@,
                Some("OTEL_SERVICE_NAME"@),
            );
            let pace = m.telemetry_value(
                "sutra.telemetry.metrics.temporality-preference"@,
                "SUTRA_TELEMETRY_METRICS_TEMPORALITY_PREFERENCE"@,
                Some("OTEL_EXPORTER_OTLP_METRICS_TEMPORALITY_PREFERENCE"@),
            );
            let interval = m.telemetry_value(
                "sutra.telemetry.metrics.export-interval"@,
                "SUTRA_TELEMETRY_METRICS_EXPORT_INTERVAL"@,
                Some("OTEL_METRIC_EXPORT_INTERVAL"@),
            );
            let labels = m.telemetry_value(
                "sutra.telemetry.metric-labels"@,
                "SUTRA_TELEMETRY_METRIC_LABELS"@,
                None,
            );
            let enabled = m.telemetry_value(
                "sutra.telemetry.enabled"@,
                "SUTRA_TELEMETRY_ENABLED"@,
                None,
            );
            let off = (m.env)("OTEL_SDK_DISABLED"@) matches Some(v) && text::lowered(
                text::trimmed(v),
            ) == "true"@;
            &&& endpoint is Some && text::trimmed(endpoint->0).len() > 0 ==> t.otlp_endpoint
                == Some(text::trimmed(endpoint->0))
            &&& endpoint is None || text::trimmed(endpoint->0).len() == 0 ==> t.otlp_endpoint
                is None
            &&& service is Some && text::trimmed(service->0).len() > 0 ==> t.service_name
                == text::trimmed(service->0)
            &&& service is None || text::trimmed(service->0).len() == 0 ==> t.service_name
                == "sutra-engine"@
            &&& pace is None || otel::temporality(pace->0) is None ==> t.metrics_temporality
                == TemporalityPreference::Cumulative
            &&& pace is Some && otel::temporality(pace->0) is Some ==> otel::temporality(pace->0)
                == Some(t.metrics_temporality)
            &&& interval is None ==> t.metrics_export_interval_ms is None
            &&& interval matches Some(raw) ==> t.metrics_export_interval_ms
                == otel::positive_millis(raw)
            &&& labels is None ==> t.metric_labels == seq!["tenant"@, "module"@, "version"@]
            &&& labels matches Some(raw) ==> t.metric_labels == otel::label_list(
                text::pieces(raw, ','),
            )
            &&& t.enabled <==> !off && !(enabled matches Some(raw) && text::lowered(
                text::trimmed(raw),
            ) == "false"@)
        }),
{
}

/// The three words for how measurements add up, in either case of letters; any other is none.
pub proof fn a_temporality_has_its_word(raw: Seq<char>)
    ensures
        ({
            let w = text::lowered(text::trimmed(raw));
            match otel::temporality(raw) {
                Some(TemporalityPreference::Cumulative) => w == "cumulative"@,
                Some(TemporalityPreference::Delta) => w == "delta"@,
                Some(TemporalityPreference::LowMemory) => w == "lowmemory"@,
                None => w != "cumulative"@ && w != "delta"@ && w != "lowmemory"@,
            }
        }),
        otel::temporality_warning(None).len() == 0,
        otel::temporality_warning(Some(raw)).len() == if otel::temporality(raw) is None {
            1int
        } else {
            0
        },
{
}

/// An interval is a positive number of milliseconds; anything else is none, and is warned of.
pub proof fn an_interval_is_positive(n: nat, raw: Seq<char>)
    ensures
        text::trimmed(raw) == text::decimal(n) && 0 < n <= u64::MAX ==> otel::positive_millis(raw)
            == Some(n as u64),
        text::trimmed(raw) == text::decimal(n) && (n == 0 || n > u64::MAX) ==> otel::positive_millis(
            raw,
        ) is None,
        otel::positive_millis(raw) matches Some(v) ==> v > 0,
        otel::interval_warning(None).len() == 0,
        otel::interval_warning(Some(raw)).len() == if otel::positive_millis(raw) is None {
            1int
        } else {
            0
        },
{
    text_laws::a_count_is_read_from_its_digits(n, u64::MAX as nat, raw, 0);
}

/// The labels of a list are its parts that are not blank, trimmed, in their order.
pub proof fn labels_are_the_nonblank_parts(a: Seq<Seq<char>>, b: Seq<Seq<char>>, p: Seq<char>)
    ensures
        otel::label_list(a + b) == otel::label_list(a) + otel::label_list(b),
        otel::label_list(seq![p]) == if text::trimmed(p).len() > 0 {
            seq![text::trimmed(p)]
        } else {
            Seq::empty()
        },
    decreases b.len(),
{
    let none = Seq::<Seq<char>>::empty();
    assert(seq![p].drop_last() =~= none);
    assert(seq![p].last() == p);
    assert(otel::label_list(none) =~= Seq::<Seq<char>>::empty());
    assert(Seq::<Seq<char>>::empty().push(text::trimmed(p)) =~= seq![text::trimmed(p)]);
    if b.len() == 0 {
        assert(a + b =~= a);
        assert(otel::label_list(a) + otel::label_list(b) =~= otel::label_list(a));
    } else {
        labels_are_the_nonblank_parts(a, b.drop_last(), p);
        assert((a + b).drop_last() =~= a + b.drop_last());
        assert((a + b).last() == b.last());
        let x = otel::label_list(a);
        let y = otel::label_list(b.drop_last());
        assert((x + y).push(text::trimmed(b.last())) =~= x + y.push(text::trimmed(b.last())));
    }
}

// ---- measurements ------------------------------------------------------------------------------

/// A measurement of an instance has its deployment first, and then every allowed label that the
/// event has, in the order of the allowed ones, each with the event's value.
pub proof fn a_label_is_measured_with_its_value(
    labels: Seq<Seq<char>>,
    n: int,
    e: InstanceEventView,
)
    requires
        0 <= n < labels.len(),
    ensures
        metrics::instance_dims(labels, 0, e) == seq![("deployment.id"@, e.deployment_id)],
        match keyed::lookup(e.labels, labels[n]) {
            Some(v) => metrics::instance_dims(labels, n + 1, e) == metrics::instance_dims(
                labels,
                n,
                e,
            ) + seq![(labels[n], v)],
            None => metrics::instance_dims(labels, n + 1, e) == metrics::instance_dims(
                labels,
                n,
                e,
            ),
        },
{
}

/// A token is measured by its deployment, its node's type and its node; a task by its deployment and
/// its name.
pub proof fn tokens_and_tasks_are_measured_by_name(
    deployment: Seq<char>,
    node_type: Seq<char>,
    node: Seq<char>,
    task: Seq<char>,
)
    ensures
        metrics::token_dims(deployment, node_type, node) == seq![
            ("deployment.id"@, deployment),
            ("node.type"@, node_type),
            ("node.id"@, node),
        ],
        metrics::task_dims(deployment, task) == seq![
            ("deployment.id"@, deployment),
            ("task.name"@, task),
        ],
{
}

/// Coverage is measured by deployment and process, and by tenant, module and version where they are
/// known, in that order.
pub proof fn coverage_is_measured_by_process(
    deployment: Seq<char>,
    process: Seq<char>,
    tenant: Seq<char>,
    module: Seq<char>,
    version: Seq<char>,
)
    ensures
        metrics::coverage_dims(deployment, process, None, None, None) == seq![
            ("deployment.id"@, deployment),
            ("process.id"@, process),
        ],
        tenant.len() > 0 && module.len() > 0 && version.len() > 0 ==> metrics::coverage_dims(
            deployment,
            process,
            Some(tenant),
            Some(module),
            Some(version),
        ) == seq![
            ("deployment.id"@, deployment),
            ("process.id"@, process),
            ("tenant"@, tenant),
            ("module"@, module),
            ("version"@, version),
        ],
        metrics::dim(tenant, None).len() == 0,
        module.len() == 0 ==> metrics::dim(tenant, Some(module)).len() == 0,
        module.len() > 0 ==> metrics::dim(tenant, Some(module)) == seq![(tenant, module)],
{
    if tenant.len() > 0 && module.len() > 0 && version.len() > 0 {
        assert(metrics::coverage_dims(
            deployment,
            process,
            Some(tenant),
            Some(module),
            Some(version),
        ) =~= seq![
            ("deployment.id"@, deployment),
            ("process.id"@, process),
            ("tenant"@, tenant),
            ("module"@, module),
            ("version"@, version),
        ]);
    }
    assert(metrics::coverage_dims(deployment, process, None, None, None) =~= seq![
        ("deployment.id"@, deployment),
        ("process.id"@, process),
    ]);
}

/// A process that declares paths has a measurement: how many of how many, with its own dimensions;
/// one that declares none has none.
pub proof fn coverage_counts_of_the_declared(s: CoverageStateView)
    ensures
        s.declared_paths.len() == 0 ==> s.point() is None,
        s.declared_paths.len() > 0 ==> (s.point() matches Some(p) && p.covered == s.covered.len()
            && p.total == s.declared_paths.len() && p.attrs == s.attrs),
{
}

/// Covering a path covers that path and keeps every other as it was, covered or not; nothing else
/// of the process changes.
pub proof fn covering_covers_its_path(s: CoverageStateView, path: Seq<char>, other: Seq<char>)
    ensures
        s.cover(path).covered.contains(path),
        other != path ==> s.cover(path).covered.contains(other) == s.covered.contains(other),
        s.cover(path).deployment_id == s.deployment_id,
        s.cover(path).process_id == s.process_id,
        s.cover(path).declared_paths == s.declared_paths,
        s.cover(path).attrs == s.attrs,
{
    keyed::added_contains(s.covered, path, path);
    keyed::added_contains(s.covered, path, other);
}

/// Seeding covers a declared path exactly where it was seen before, keeps what was covered, and
/// covers nothing that is not declared.
pub proof fn seeding_covers_what_was_seen(
    s: CoverageStateView,
    seen: Seq<Seq<char>>,
    path: Seq<char>,
)
    ensures
        s.seed(seen).covered.contains(path) <==> s.covered.contains(path) || (seen.contains(path)
            && s.declared_paths.contains(path)),
        s.seed(seen).deployment_id == s.deployment_id,
        s.seed(seen).process_id == s.process_id,
        s.seed(seen).declared_paths == s.declared_paths,
        s.seed(seen).attrs == s.attrs,
{
    seeded_paths(s.covered, s.declared_paths, seen, s.declared_paths.len() as int, path);
}

proof fn seeded_paths(
    covered: Seq<Seq<char>>,
    declared: Seq<Seq<char>>,
    seen: Seq<Seq<char>>,
    n: int,
    path: Seq<char>,
)
    requires
        0 <= n <= declared.len(),
    ensures
        metrics::seed_covered(covered, declared, seen, n).contains(path) <==> covered.contains(path)
            || (seen.contains(path) && exists|i: int| 0 <= i < n && #[trigger] declared[i] == path),
    decreases n,
{
    if n > 0 {
        seeded_paths(covered, declared, seen, n - 1, path);
        keyed::added_contains(
            metrics::seed_covered(covered, declared, seen, n - 1),
            declared[n - 1],
            path,
        );
        if exists|i: int| 0 <= i < n - 1 && #[trigger] declared[i] == path {
            let i = choose|i: int| 0 <= i < n - 1 && #[trigger] declared[i] == path;
            assert(declared[i] == path);
        }
    }
}

/// The paths of a process that are flagged as covered are exactly those declared whose name is
/// flagged.
pub proof fn a_flagged_path_is_covered(
    declared: Seq<Seq<char>>,
    flagged: Seq<Seq<char>>,
    urn: spec_fn(Seq<char>) -> Seq<char>,
    path: Seq<char>,
)
    ensures
        metrics::covered_among(declared, flagged, urn).contains(path) <==> declared.contains(path)
            && flagged.contains(urn(path)),
    decreases declared.len(),
{
    if declared.len() > 0 {
        let rest = declared.drop_last();
        a_flagged_path_is_covered(rest, flagged, urn, path);
        keyed::added_contains(
            metrics::covered_among(rest, flagged, urn),
            declared.last(),
            path,
        );
        assert(rest.push(declared.last()) =~= declared);
        text::push_contains(rest, declared.last(), path);
    }
}

/// What is measured of a process begins uncovered, with the process's own paths and dimensions.
pub proof fn a_process_begins_uncovered(m: CoverageMetaView)
    ensures
        ({
            let s = metrics::fresh(m);
            &&& s.deployment_id == m.deployment_id
            &&& s.process_id == m.process_id
            &&& s.declared_paths == m.declared_paths
            &&& s.covered.len() == 0
            &&& s.attrs == metrics::coverage_dims(
                m.deployment_id,
                m.process_id,
                m.tenant,
                m.module,
                m.version,
            )
        }),
{
}

/// The place of a process is that of the first of its deployment and id, and the end where there is
/// none.
pub proof fn a_process_has_its_place(
    states: Seq<CoverageStateView>,
    deployment: Seq<char>,
    process: Seq<char>,
)
    ensures
        ({
            let at = metrics::place_of(states, deployment, process);
            &&& 0 <= at <= states.len()
            &&& at < states.len() ==> states[at].deployment_id == deployment
                && states[at].process_id == process
            &&& forall|i: int|
                0 <= i < at ==> !((#[trigger] states[i]).deployment_id == deployment
                    && states[i].process_id == process)
        }),
    decreases states.len(),
{
    if states.len() > 0 && !states[0].is_of(deployment, process) {
        let rest = states.drop_first();
        a_process_has_its_place(rest, deployment, process);
        let at = metrics::place_of(rest, deployment, process);
        assert forall|i: int| 0 <= i < at + 1 implies !((#[trigger] states[i]).deployment_id
            == deployment && states[i].process_id == process) by {
            if i > 0 {
                assert(rest[i - 1] == states[i]);
            }
        }
    }
}

/// A process is measured once: one that is wired again begins anew in its place, and a new one comes
/// last.
pub proof fn a_process_is_wired_once(metas: Seq<CoverageMetaView>, m: CoverageMetaView)
    ensures
        ({
            let before = metrics::wired(metas);
            let after = metrics::wired(metas.push(m));
            let at = metrics::place_of(before, m.deployment_id, m.process_id);
            &&& at < before.len() ==> after == before.update(at, metrics::fresh(m))
            &&& at >= before.len() ==> after == before + seq![metrics::fresh(m)]
            &&& metrics::wired(Seq::<CoverageMetaView>::empty()).len() == 0
        }),
{
    assert(metas.push(m).drop_last() =~= metas);
    a_process_has_its_place(metrics::wired(metas), m.deployment_id, m.process_id);
}

/// What is known of a process is the first that was said of its deployment and id.
pub proof fn the_first_word_of_a_process_counts(
    initial: Seq<InitialCoverage>,
    deployment: Seq<char>,
    process: Seq<char>,
    s: CoverageStateView,
)
    ensures
        match metrics::known(initial, deployment, process) {
            Some(seen) => exists|i: int|
                0 <= i < initial.len() && (#[trigger] initial[i]).deployment_id@ == deployment
                    && initial[i].process_id@ == process && initial[i].covered@ == seen && forall|
                    j: int,
                |
                    0 <= j < i ==> !((#[trigger] initial[j]).deployment_id@ == deployment
                        && initial[j].process_id@ == process),
            None => forall|i: int|
                0 <= i < initial.len() ==> !((#[trigger] initial[i]).deployment_id@ == deployment
                    && initial[i].process_id@ == process),
        },
        match metrics::known(initial, s.deployment_id, s.process_id) {
            Some(seen) => metrics::seeded(s, initial) == s.seed(seen),
            None => metrics::seeded(s, initial) == s,
        },
    decreases initial.len(),
{
    if initial.len() > 0 && !(initial[0].deployment_id@ == deployment && initial[0].process_id@
        == process) {
        let rest = initial.drop_first();
        the_first_word_of_a_process_counts(rest, deployment, process, s);
        match metrics::known(rest, deployment, process) {
            Some(seen) => {
                let i = choose|i: int|
                    0 <= i < rest.len() && (#[trigger] rest[i]).deployment_id@ == deployment
                        && rest[i].process_id@ == process && rest[i].covered@ == seen && forall|
                        j: int,
                    |
                        0 <= j < i ==> !((#[trigger] rest[j]).deployment_id@ == deployment
                            && rest[j].process_id@ == process);
                assert(initial[i + 1] == rest[i]);
                assert forall|j: int| 0 <= j < i + 1 implies !((
                #[trigger] initial[j]).deployment_id@ == deployment && initial[j].process_id@
                    == process) by {
                    if j > 0 {
                        assert(rest[j - 1] == initial[j]);
                    }
                }
            },
            None => {
                assert forall|i: int| 0 <= i < initial.len() implies !((
                #[trigger] initial[i]).deployment_id@ == deployment && initial[i].process_id@
                    == process) by {
                    if i > 0 {
                        assert(rest[i - 1] == initial[i]);
                    }
                }
            },
        }
    } else if initial.len() > 0 {
        assert(initial[0].covered@ == metrics::known(initial, deployment, process)->0);
    }
}

/// Every process that declares paths has its point, in their order.
pub proof fn each_measured_process_has_a_point(
    a: Seq<CoverageStateView>,
    b: Seq<CoverageStateView>,
    p: CoverageStateView,
)
    ensures
        metrics::points(a + b) == metrics::points(a) + metrics::points(b),
        metrics::points(seq![p]) == match p.point() {
            Some(q) => seq![q],
            None => Seq::empty(),
        },
    decreases b.len(),
{
    let none = Seq::<CoverageStateView>::empty();
    assert(seq![p].drop_last() =~= none);
    assert(seq![p].last() == p);
    assert(metrics::points(none) =~= Seq::<CoveragePointView>::empty());
    match p.point() {
        Some(q) => {
            assert(Seq::<CoveragePointView>::empty().push(q) =~= seq![q]);
        },
        None => {},
    }
    if b.len() > 0 {
        let x = metrics::points(a);
        let y = metrics::points(b.drop_last());
        match b.last().point() {
            Some(q) => {
                assert((x + y).push(q) =~= x + y.push(q));
            },
            None => {},
        }
    }
    if b.len() == 0 {
        assert(a + b =~= a);
        assert(metrics::points(a) + metrics::points(b) =~= metrics::points(a));
    } else {
        each_measured_process_has_a_point(a, b.drop_last(), p);
        assert((a + b).drop_last() =~= a + b.drop_last());
        assert((a + b).last() == b.last());
        let x = metrics::points(a);
        let y = metrics::points(b.drop_last());
    }
}

/// Each meter of a lane measures its own count.
pub proof fn each_meter_measures_its_own(lane: LaneCounts)
    ensures
        metrics::lane_value(LaneMeter::Dispatches, lane) == lane.dispatches,
        metrics::lane_value(LaneMeter::Parks, lane) == lane.parks,
        metrics::lane_value(LaneMeter::Resumes, lane) == lane.resumes,
        metrics::lane_value(LaneMeter::Handoffs, lane) == lane.handoffs,
{
}

/// Every lane's bounces are measured twice, by relay and by timer, each with its own count.
pub proof fn bounces_are_measured_by_path(points: Seq<BouncePoint>, i: int, lane: LaneCounts)
    requires
        metrics::bounces_at(points, i, lane),
    ensures
        points[2 * i].shard == i && points[2 * i].path@ == "relay"@ && points[2 * i].value
            == lane.claim_bounce_relay,
        points[2 * i + 1].shard == i && points[2 * i + 1].path@ == "timer"@ && points[2 * i
            + 1].value == lane.claim_bounce_timer,
{
}

/// What contracts say of an event is what it holds.
pub proof fn an_event_is_its_fields(e: InstanceEvent)
    ensures
        e@.deployment_id == e.deployment_id@,
        e@.labels == e.labels@,
        e@.instance_id == e.instance_id@,
        e@.process_id == e.process_id@,
{
}

// ---- audit -------------------------------------------------------------------------------------

/// An audit event is logged with each of its fields under its own name; a missing node is a dash.
pub proof fn an_event_is_logged_field_by_field(e: AuditEvent)
    ensures
        ({
            let a = audit::log_attributes(e);
            &&& a.len() == 6
            &&& a[0] == ("deployment_id"@, AttributeView::Text(e.deployment_id@))
            &&& a[1] == ("tenant"@, AttributeView::Text(e.tenant@))
            &&& a[2] == ("instance_id"@, AttributeView::Text(e.instance_id@))
            &&& a[3].0 == "seq"@ && (a[3].1 matches AttributeView::Number(n) && n == e.seq)
            &&& a[4] == ("event_type"@, AttributeView::Text(e.event_type@))
            &&& a[5].0 == "node_id"@
            &&& e.node_id matches Some(n) ==> a[5].1 == AttributeView::Text(n@)
            &&& e.node_id is None ==> a[5].1 == AttributeView::Text("-"@)
        }),
{
}

/// The row of an audit event keeps every field of it: the instance by the number of its id where it
/// has one, the sequence as far as a row can count, and the instant that its text denotes.
pub proof fn an_audit_row_keeps_its_event(row: AuditEventRow, e: AuditEvent, now: i128)
    requires
        audit::row_of(row, e, now),
    ensures
        row.deployment@ == e.deployment_id@,
        match outside::uuid_value(e.instance_id@) {
            Ok(v) => row.instance_id == Some(v),
            Err(_) => row.instance_id is None,
        },
        e.seq <= i32::MAX ==> row.seq == e.seq,
        e.seq > i32::MAX ==> row.seq == i32::MAX,
        match outside::rfc3339_instant(e.at@) {
            Ok(t) => row.at == t,
            Err(_) => row.at == now,
        },
        row.event_type@ == e.event_type@,
        sources::opt(row.node_id) == sources::opt(e.node_id),
        sources::opt(row.diagnostic_code) == sources::opt(e.diagnostic_code),
        sources::opt(row.diagnostic_json) == sources::opt(e.diagnostic_json),
        row.payload_json@ == e.payload_json@,
{
}

/// The audit pipeline is what its first building made of it.
pub proof fn the_first_building_counts(built: Seq<bool>)
    ensures
        built.len() == 0 ==> audit::tried_after(built) is None,
        built.len() > 0 ==> audit::tried_after(built) == Some(built[0]),
    decreases built.len(),
{
    if built.len() > 0 {
        the_first_building_counts(built.drop_last());
    }
}

/// An event without a usable deployment is refused by name.
pub proof fn an_unusable_deployment_is_named(id: Seq<char>, error: Seq<char>)
    ensures
        audit::unusable(id, error).message == "audit event has an unusable deployment id '"@ + id
            + "': "@ + error,
        audit::unusable(id, error).code == crate::diag::Code::AuditSinkWriteFailed,
{
}

// ---- the process's telemetry -------------------------------------------------------------------

/// The first telemetry with a live signal is the process's; none with no signal is, and none later.
pub proof fn the_first_live_telemetry_stays(current: Option<Telemetry>, t: Telemetry)
    ensures
        current is Some ==> telemetry::installed_over(current, t) == current,
        current is None && (t.traces || t.metrics || t.logs) ==> telemetry::installed_over(
            current,
            t,
        ) == Some(t),
        current is None && !t.traces && !t.metrics && !t.logs ==> telemetry::installed_over(
            current,
            t,
        ) is None,
{
}

/// A pipeline that was tried is not tried again: a later building changes nothing.
pub proof fn a_tried_pipeline_stays(tried: Option<bool>, built: bool, again: bool)
    ensures
        tried is Some ==> audit::tried_next(tried, built) == tried,
        tried is None ==> audit::tried_next(tried, built) == Some(built),
        audit::tried_next(audit::tried_next(tried, built), again) == audit::tried_next(tried, built),
{
}

/// Covering a path changes the coverage of its own process alone: the first of its deployment and
/// id gains the path, and every other stays; a process that is not measured changes nothing.
pub proof fn covering_changes_its_process_alone(
    l: ListenerView,
    deployment: Seq<char>,
    process: Seq<char>,
    path: Seq<char>,
    i: int,
)
    requires
        0 <= i < l.coverage.len(),
    ensures
        ({
            let n = metrics::after_cover(l, deployment, process, path);
            &&& n.labels == l.labels && n.wired == l.wired
            &&& n.coverage.len() == l.coverage.len()
            &&& !l.wired ==> n == l
            &&& !(l.coverage[i].deployment_id == deployment && l.coverage[i].process_id == process)
                ==> n.coverage[i] == l.coverage[i]
            &&& l.wired && l.coverage[i].deployment_id == deployment && l.coverage[i].process_id
                == process && (forall|j: int|
                0 <= j < i ==> !((#[trigger] l.coverage[j]).deployment_id == deployment
                    && l.coverage[j].process_id == process))
                ==> n.coverage[i].covered.contains(path)
        }),
{
    a_process_has_its_place(l.coverage, deployment, process);
    covering_covers_its_path(l.coverage[i], path, path);
    let at = metrics::place_of(l.coverage, deployment, process);
    if at < i {
        assert(l.coverage[at].deployment_id == deployment);
    }
}

/// Applying what was known covers of each measured process what was known of it; nothing is measured
/// of an engine that is not wired.
pub proof fn what_was_known_is_applied_to_each(
    l: ListenerView,
    initial: Seq<InitialCoverage>,
    i: int,
)
    requires
        0 <= i < l.coverage.len(),
    ensures
        ({
            let n = metrics::after_seed(l, initial);
            &&& n.labels == l.labels && n.wired == l.wired
            &&& n.coverage.len() == l.coverage.len()
            &&& !l.wired ==> n == l
            &&& l.wired ==> n.coverage[i] == match metrics::known(
                initial,
                l.coverage[i].deployment_id,
                l.coverage[i].process_id,
            ) {
                Some(seen) => l.coverage[i].seed(seen),
                None => l.coverage[i],
            }
        }),
{
}

proof fn in_either(a: Seq<Seq<char>>, b: Seq<Seq<char>>, x: Seq<char>)
    ensures
        a.contains(x) || b.contains(x) ==> (a + b).contains(x),
{
    let s = a + b;
    if a.contains(x) {
        let i = choose|i: int| 0 <= i < a.len() && a[i] == x;
        assert(s[i] == x);
    }
    if b.contains(x) {
        let i = choose|i: int| 0 <= i < b.len() && b[i] == x;
        assert(s[a.len() + i] == x);
    }
}

/// Whatever telemetry setting does not resolve, or says what cannot be used, is warned of.
pub proof fn a_telemetry_setting_that_fails_is_warned_of(m: Inputs, w: Seq<char>)
    requires
        m.telemetry_warning(
            "sutra.telemetry.otlp.endpoint"@,
            "SUTRA_TELEMETRY_OTLP_ENDPOINT"@,
            Some("OTEL_EXPORTER_OTLP_ENDPOINT"@),
        ).contains(w) || m.telemetry_warning(
            "sutra.telemetry.service-name"@,
            "SUTRA_TELEMETRY_SERVICE_NAME"@,
            Some("OTEL_SERVICE_NAME"@),
        ).contains(w) || m.telemetry_warning(
            "sutra.telemetry.metrics.temporality-preference"@,
            "SUTRA_TELEMETRY_METRICS_TEMPORALITY_PREFERENCE"@,
            Some("OTEL_EXPORTER_OTLP_METRICS_TEMPORALITY_PREFERENCE"@),
        ).contains(w) || m.telemetry_warning(
            "sutra.telemetry.metrics.export-interval"@,
            "SUTRA_TELEMETRY_METRICS_EXPORT_INTERVAL"@,
            Some("OTEL_METRIC_EXPORT_INTERVAL"@),
        ).contains(w) || m.telemetry_warning(
            "sutra.telemetry.metric-labels"@,
            "SUTRA_TELEMETRY_METRIC_LABELS"@,
            None,
        ).contains(w) || m.telemetry_warning(
            "sutra.telemetry.enabled"@,
            "SUTRA_TELEMETRY_ENABLED"@,
            None,
        ).contains(w) || otel::temporality_warning(
            m.telemetry_value(
                "sutra.telemetry.metrics.temporality-preference"@,
                "SUTRA_TELEMETRY_METRICS_TEMPORALITY_PREFERENCE"@,
                Some("OTEL_EXPORTER_OTLP_METRICS_TEMPORALITY_PREFERENCE"@),
            ),
        ).contains(w) || otel::interval_warning(
            m.telemetry_value(
                "sutra.telemetry.metrics.export-interval"@,
                "SUTRA_TELEMETRY_METRICS_EXPORT_INTERVAL"@,
                Some("OTEL_METRIC_EXPORT_INTERVAL"@),
            ),
        ).contains(w),
    ensures
        otel::telemetry(m).warnings.contains(w),
{
    let a = m.telemetry_warning(
        "sutra.telemetry.otlp.endpoint"@,
        "SUTRA_TELEMETRY_OTLP_ENDPOINT"@,
        Some("OTEL_EXPORTER_OTLP_ENDPOINT"@),
    );
    let b = m.telemetry_warning(
        "sutra.telemetry.service-name"@,
        "SUTRA_TELEMETRY_SERVICE_NAME"@,
        Some("OTEL_SERVICE_NAME"@),
    );
    let c = m.telemetry_warning(
        "sutra.telemetry.metrics.temporality-preference"@,
        "SUTRA_TELEMETRY_METRICS_TEMPORALITY_PREFERENCE"@,
        Some("OTEL_EXPORTER_OTLP_METRICS_TEMPORALITY_PREFERENCE"@),
    );
    let d = otel::temporality_warning(otel::temporality_value(m));
    let e = m.telemetry_warning(
        "sutra.telemetry.metrics.export-interval"@,
        "SUTRA_TELEMETRY_METRICS_EXPORT_INTERVAL"@,
        Some("OTEL_METRIC_EXPORT_INTERVAL"@),
    );
    let f = otel::interval_warning(otel::interval_value(m));
    let g = m.telemetry_warning(
        "sutra.telemetry.metric-labels"@,
        "SUTRA_TELEMETRY_METRIC_LABELS"@,
        None,
    );
    let h = m.telemetry_warning("sutra.telemetry.enabled"@, "SUTRA_TELEMETRY_ENABLED"@, None);
    in_either(a, b, w);
    in_either(a + b, c, w);
    in_either(a + b + c, d, w);
    in_either(a + b + c + d, e, w);
    in_either(a + b + c + d + e, f, w);
    in_either(a + b + c + d + e + f, g, w);
    in_either(a + b + c + d + e + f + g, h, w);
}

} // verus!
