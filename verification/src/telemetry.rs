//! What telemetry is live, and what a structured log line holds.

use vstd::prelude::*;

use crate::json::{Json, JsonView};
use crate::json;
use crate::otel::{TelemetryConfig, TelemetryConfigView};
use crate::sources;
use crate::text;

verus! {

// ---- exporters ---------------------------------------------------------------------------------

/// Which signals are exported.
#[derive(Debug, Clone, Copy, PartialEq, Eq, Structural)]
pub struct Telemetry {
    pub traces: bool,
    pub metrics: bool,
    pub logs: bool,
}

impl Telemetry {
    /// Whether anything is exported.
    pub fn is_active(&self) -> (r: bool)
        ensures
            r == (self.traces || self.metrics || self.logs),
    {
        self.traces || self.metrics || self.logs
    }
}

/// What building the exporters answered.
pub struct ExporterAnswers {
    pub traces: Result<(), String>,
    pub metrics: Result<(), String>,
    pub logs: Result<(), String>,
}

/// The warning about an exporter that could not be built.
pub open spec fn exporter_warning(signal: Seq<char>, off: Seq<char>, answer: Result<(), String>) -> Seq<
    Seq<char>,
> {
    match answer {
        Ok(_) => Seq::empty(),
        Err(e) => seq!["OTLP "@ + signal + " exporter unavailable ("@ + off + " off): "@ + e@],
    }
}

/// The signals that are live: none where telemetry is off, else those whose exporter was built. A
/// failure takes one signal away and no more.
pub open spec fn live(cfg: TelemetryConfigView, answers: ExporterAnswers) -> Telemetry {
    Telemetry {
        traces: cfg.active() && answers.traces is Ok,
        metrics: cfg.active() && answers.metrics is Ok,
        logs: cfg.active() && answers.logs is Ok,
    }
}

/// The warning about a subscriber that could not be installed.
pub open spec fn subscriber_warning(installed: Result<(), String>) -> Seq<Seq<char>> {
    match installed {
        Ok(_) => Seq::empty(),
        Err(e) => seq![
            "global tracing subscriber already installed — telemetry layers not attached to it ("@
                + e@ + ")"@,
        ],
    }
}

/// The warnings to give, in order: those of the configuration, those about exporters where telemetry
/// is on, and the one about the subscriber.
pub open spec fn warnings_of(
    cfg: TelemetryConfigView,
    answers: ExporterAnswers,
    installed: Result<(), String>,
) -> Seq<Seq<char>> {
    let exporters = if cfg.active() {
        exporter_warning("span"@, "traces"@, answers.traces) + exporter_warning(
            "metric"@,
            "metrics"@,
            answers.metrics,
        ) + exporter_warning("log"@, "OTLP logs"@, answers.logs)
    } else {
        Seq::empty()
    };
    cfg.warnings + exporters + subscriber_warning(installed)
}

/// The signals that are live. `answers` is not looked at where telemetry is off.
pub fn live_signals(config: &TelemetryConfig, answers: &ExporterAnswers) -> (r: Telemetry)
    ensures
        r == live(config@, *answers),
{
    if config.is_active() {
        Telemetry {
            traces: answers.traces.is_ok(),
            metrics: answers.metrics.is_ok(),
            logs: answers.logs.is_ok(),
        }
    } else {
        Telemetry { traces: false, metrics: false, logs: false }
    }
}

fn warn_about(out: &mut Vec<String>, signal: &str, off: &str, answer: &Result<(), String>)
    ensures
        text::texts(final(out)@) == text::texts(old(out)@) + exporter_warning(
            signal@,
            off@,
            *answer,
        ),
{
    let ghost prior = text::texts(out@);
    match answer {
        Ok(_) => {
            assert(prior + Seq::<Seq<char>>::empty() =~= prior);
        },
        Err(e) => {
            let head = text::text5("OTLP ", signal, " exporter unavailable (", off, " off): ");
            let line = text::text2(&head, e);
            let ghost l = line@;
            out.push(line);
            assert(text::texts(out@) =~= prior + seq![l]);
        },
    }
}

/// Decide what telemetry is live, and what to warn about. `installed` is what installing the
/// subscriber answered.
pub fn init(
    config: &TelemetryConfig,
    answers: &ExporterAnswers,
    installed: &Result<(), String>,
) -> (r: (Telemetry, Vec<String>))
    ensures
        r.0 == live(config@, *answers),
        text::texts(r.1@) == warnings_of(config@, *answers, *installed),
{
    let mut warnings = text::copy_texts(&config.warnings);
    if config.is_active() {
        warn_about(&mut warnings, "span", "traces", &answers.traces);
        warn_about(&mut warnings, "metric", "metrics", &answers.metrics);
        warn_about(&mut warnings, "log", "OTLP logs", &answers.logs);
    }
    let ghost before = text::texts(warnings@);
    match installed {
        Ok(_) => {},
        Err(e) => {
            let line = text::text3(
                "global tracing subscriber already installed — telemetry layers not attached to it (",
                e,
                ")",
            );
            let ghost l = line@;
            warnings.push(line);
            assert(text::texts(warnings@) =~= before + seq![l]);
        },
    }
    assert(text::texts(warnings@) =~= warnings_of(config@, *answers, *installed));
    (live_signals(config, answers), warnings)
}

/// Telemetry that is off exports nothing, whatever its exporters answered, and warns of none of them.
pub proof fn off_exports_nothing(
    cfg: TelemetryConfigView,
    answers: ExporterAnswers,
    installed: Result<(), String>,
)
    requires
        !cfg.active(),
    ensures
        !live(cfg, answers).traces,
        !live(cfg, answers).metrics,
        !live(cfg, answers).logs,
        warnings_of(cfg, answers, installed) == cfg.warnings + subscriber_warning(installed),
{
    assert(cfg.warnings + Seq::<Seq<char>>::empty() =~= cfg.warnings);
}

/// The telemetry of the process: the first that was active.
#[derive(Debug, Clone, Copy, PartialEq, Eq, Structural)]
pub struct ActiveTelemetry {
    pub current: Option<Telemetry>,
}

/// The telemetry of the process once another is installed.
pub open spec fn installed_over(current: Option<Telemetry>, t: Telemetry) -> Option<Telemetry> {
    match current {
        Some(c) => Some(c),
        None => if t.traces || t.metrics || t.logs {
            Some(t)
        } else {
            None
        },
    }
}

impl ActiveTelemetry {
    /// Note the telemetry of an initialisation; the first active one stays. Whether it is this one.
    pub fn install(&mut self, t: Telemetry) -> (r: bool)
        ensures
            r == (old(self).current is None && (t.traces || t.metrics || t.logs)),
            final(self).current == match old(self).current {
                Some(c) => Some(c),
                None => if t.traces || t.metrics || t.logs {
                    Some(t)
                } else {
                    None
                },
            },
            final(self).current == installed_over(old(self).current, t),
    {
        let first = self.current.is_none() && t.is_active();
        if first {
            self.current = Some(t);
        }
        first
    }
}

/// The signals to flush at shutdown: none where telemetry was never active.
pub fn flush_active(active: &ActiveTelemetry) -> (r: Telemetry)
    ensures
        r == match active.current {
            Some(t) => t,
            None => (Telemetry { traces: false, metrics: false, logs: false }),
        },
{
    match active.current {
        Some(t) => t,
        None => Telemetry { traces: false, metrics: false, logs: false },
    }
}

/// Whether an event of a target goes to the log exporter. The exporters' own events do not: a
/// failing exporter would feed itself.
pub open spec fn exported_target(target: Seq<char>) -> bool {
    !text::begins(target, "opentelemetry"@) && !text::begins(target, "tonic"@) && !text::begins(
        target,
        "h2"@,
    ) && !text::begins(target, "hyper"@) && !text::begins(target, "tower"@)
}

/// Whether an event of a target goes to the log exporter.
pub fn exports_target(target: &str) -> (r: bool)
    ensures
        r == exported_target(target@),
{
    !text::starts_with(target, "opentelemetry") && !text::starts_with(target, "tonic")
        && !text::starts_with(target, "h2") && !text::starts_with(target, "hyper")
        && !text::starts_with(target, "tower")
}

// ---- log lines ---------------------------------------------------------------------------------

/// The fields of a log event; its message is kept apart.
pub struct LogFields {
    message: Option<String>,
    fields: Json,
}

/// The contents of [`LogFields`]. The fields are the members of an object.
pub struct LogFieldsView {
    pub message: Option<Seq<char>>,
    pub fields: JsonView,
}

impl View for LogFields {
    type V = LogFieldsView;

    closed spec fn view(&self) -> LogFieldsView {
        LogFieldsView { message: sources::opt(self.message), fields: self.fields@ }
    }
}

impl LogFields {
    #[verifier::type_invariant]
    spec fn is_object(self) -> bool {
        self.fields@ is Object
    }

    /// No fields yet.
    pub fn new() -> (r: LogFields)
        ensures
            r@.message is None,
            r@.fields == JsonView::empty(),
    {
        LogFields { message: None, fields: Json::object() }
    }

    /// Put a field. The field `message` becomes the message: a text as it is, any other value as
    /// `rendered`.
    pub fn put(self, name: &str, value: Json, rendered: &str) -> (r: LogFields)
        ensures
            r@.fields is Object,
            name@ == "message"@ ==> {
                &&& r@.fields == self@.fields
                &&& r@.message == Some(
                    match value@ {
                        JsonView::Text(s) => s,
                        _ => rendered@,
                    },
                )
            },
            name@ != "message"@ ==> {
                &&& r@.fields == self@.fields.with(name@, value@)
                &&& r@.message == self@.message
            },
    {
        proof {
            use_type_invariant(&self);
        }
        if text::same(name, "message") {
            let message = match value {
                Json::Text(s) => s,
                _ => rendered.to_owned(),
            };
            LogFields { message: Some(message), fields: self.fields }
        } else {
            LogFields { message: self.message, fields: self.fields.with(name, value) }
        }
    }
}

/// The trace that an event belongs to.
pub struct TraceIds {
    pub trace_id: String,
    pub span_id: String,
    pub sampled: bool,
}

/// What surrounds a log event.
pub struct LogContext {
    pub timestamp: String,
    pub sequence: u64,
    pub level: String,
    pub target: String,
    pub thread: Option<String>,
    pub service_name: String,
    /// The trace, where the event is in a live exported span.
    pub trace: Option<TraceIds>,
}

/// A number with zeros in front of it, up to a width.
pub open spec fn padded(n: nat, width: nat) -> Seq<char> {
    let digits = text::decimal(n);
    let zeros: nat = if digits.len() < width {
        (width - digits.len()) as nat
    } else {
        0
    };
    Seq::new(zeros, |i: int| '0') + digits
}

/// A year of at least four digits: with its sign where it is negative or has more.
pub open spec fn year_text(year: i32) -> Seq<char> {
    if year < 0 {
        "-"@ + padded((-(year as int)) as nat, 4)
    } else if year >= 10_000 {
        "+"@ + padded(year as nat, 4)
    } else {
        padded(year as nat, 4)
    }
}

/// A moment of UTC, to the millisecond.
#[derive(Debug, Clone, Copy, PartialEq, Eq, Structural)]
pub struct Moment {
    pub year: i32,
    pub month: u8,
    pub day: u8,
    pub hour: u8,
    pub minute: u8,
    pub second: u8,
    pub millisecond: u16,
}

/// The time of a log line: `2026-07-12T09:00:00.123+00:00`.
pub open spec fn timestamp_of(m: Moment) -> Seq<char> {
    year_text(m.year) + "-"@ + padded(m.month as nat, 2) + "-"@ + padded(m.day as nat, 2) + "T"@
        + padded(m.hour as nat, 2) + ":"@ + padded(m.minute as nat, 2) + ":"@ + padded(
        m.second as nat,
        2,
    ) + "."@ + padded(m.millisecond as nat, 3) + "+00:00"@
}

fn padded_text(n: u64, width: usize) -> (r: String)
    requires
        width <= 4,
    ensures
        r@ == padded(n as nat, width as nat),
{
    let digits = text::decimal_text(n);
    let len: usize = text::chars_of(&digits).len();
    let mut out = String::new();
    let mut i: usize = len;
    assert(out@ =~= Seq::new(0, |i: int| '0'));
    while i < width
        invariant
            len <= i,
            i <= width || i == len,
            len == digits@.len(),
            width <= 4,
            out@ == Seq::new((i - len) as nat, |i: int| '0'),
        decreases width - i,
    {
        out.push('0');
        i = i + 1;
        assert(out@ =~= Seq::new((i - len) as nat, |i: int| '0'));
    }
    out.append(&digits);
    out
}

/// Write the time of a log line.
pub fn timestamp(m: Moment) -> (r: String)
    ensures
        r@ == timestamp_of(m),
{
    let year = if m.year < 0 {
        text::text2("-", &padded_text((-(m.year as i64)) as u64, 4))
    } else if m.year >= 10_000 {
        text::text2("+", &padded_text(m.year as u64, 4))
    } else {
        padded_text(m.year as u64, 4)
    };
    let date = text::text5(
        &year,
        "-",
        &padded_text(m.month as u64, 2),
        "-",
        &padded_text(m.day as u64, 2),
    );
    let hours = text::text5(
        &date,
        "T",
        &padded_text(m.hour as u64, 2),
        ":",
        &padded_text(m.minute as u64, 2),
    );
    let seconds = text::text5(
        &hours,
        ":",
        &padded_text(m.second as u64, 2),
        ".",
        &padded_text(m.millisecond as u64, 3),
    );
    text::text2(&seconds, "+00:00")
}

/// The document of a log line: the event's fields, with the reserved members in place of any of the
/// same name.
pub open spec fn log_document(
    fields: JsonView,
    message: Option<Seq<char>>,
    c: LogContext,
) -> JsonView {
    let base = fields.with("timestamp"@, JsonView::Text(c.timestamp@)).with(
        "sequence"@,
        JsonView::Int(c.sequence as int),
    ).with("level"@, JsonView::Text(c.level@)).with("loggerName"@, JsonView::Text(c.target@)).with(
        "message"@,
        JsonView::Text(
            match message {
                Some(m) => m,
                None => Seq::empty(),
            },
        ),
    );
    let threaded = match c.thread {
        Some(t) => base.with("threadName"@, JsonView::Text(t@)),
        None => base,
    };
    let served = threaded.with("service.name"@, JsonView::Text(c.service_name@));
    match c.trace {
        Some(t) => served.with("traceId"@, JsonView::Text(t.trace_id@)).with(
            "spanId"@,
            JsonView::Text(t.span_id@),
        ).with(
            "sampled"@,
            JsonView::Text(
                if t.sampled {
                    "true"@
                } else {
                    "false"@
                },
            ),
        ),
        None => served,
    }
}

/// Build the document of a log line.
pub fn log_line(fields: LogFields, c: &LogContext) -> (r: Json)
    ensures
        fields@.fields is Object,
        r@ == log_document(fields@.fields, fields@.message, *c),
{
    proof {
        use_type_invariant(&fields);
    }
    let message = match &fields.message {
        Some(m) => m.clone(),
        None => String::new(),
    };
    assert(fields.message is None ==> message@ =~= Seq::empty());
    let base = fields.fields.with("timestamp", Json::text(&c.timestamp)).with(
        "sequence",
        Json::count(c.sequence),
    ).with("level", Json::text(&c.level)).with("loggerName", Json::text(&c.target)).with(
        "message",
        Json::text(&message),
    );
    let threaded = match &c.thread {
        Some(t) => base.with("threadName", Json::text(t)),
        None => base,
    };
    let served = threaded.with("service.name", Json::text(&c.service_name));
    match &c.trace {
        Some(t) => served.with("traceId", Json::text(&t.trace_id)).with(
            "spanId",
            Json::text(&t.span_id),
        ).with(
            "sampled",
            Json::text(
                if t.sampled {
                    "true"
                } else {
                    "false"
                },
            ),
        ),
        None => served,
    }
}

/// The names of the reserved members.
pub open spec fn reserved(name: Seq<char>) -> bool {
    name == "timestamp"@ || name == "sequence"@ || name == "level"@ || name == "loggerName"@
        || name == "message"@ || name == "threadName"@ || name == "service.name"@ || name
        == "traceId"@ || name == "spanId"@ || name == "sampled"@
}

proof fn reserved_names_differ()
    ensures
        "timestamp"@.len() == 9,
        "sequence"@.len() == 8,
        "level"@.len() == 5,
        "loggerName"@.len() == 10,
        "loggerName"@[0] == 'l',
        "message"@.len() == 7,
        "message"@[0] == 'm',
        "threadName"@.len() == 10,
        "threadName"@[0] == 't',
        "service.name"@.len() == 12,
        "traceId"@.len() == 7,
        "traceId"@[0] == 't',
        "spanId"@.len() == 6,
        "sampled"@.len() == 7,
        "sampled"@[0] == 's',
{
    reveal_strlit("timestamp");
    reveal_strlit("sequence");
    reveal_strlit("level");
    reveal_strlit("loggerName");
    reveal_strlit("message");
    reveal_strlit("threadName");
    reveal_strlit("service.name");
    reveal_strlit("traceId");
    reveal_strlit("spanId");
    reveal_strlit("sampled");
}

/// What a member of a log line is, from the last place that sets it.
proof fn log_member(fields: JsonView, message: Option<Seq<char>>, c: LogContext, k: Seq<char>)
    requires
        fields is Object,
    ensures
        log_document(fields, message, c).member(k) == if c.trace is Some && k == "sampled"@ {
            Some(
                JsonView::Text(
                    if c.trace->0.sampled {
                        "true"@
                    } else {
                        "false"@
                    },
                ),
            )
        } else if c.trace is Some && k == "spanId"@ {
            Some(JsonView::Text(c.trace->0.span_id@))
        } else if c.trace is Some && k == "traceId"@ {
            Some(JsonView::Text(c.trace->0.trace_id@))
        } else if k == "service.name"@ {
            Some(JsonView::Text(c.service_name@))
        } else if c.thread is Some && k == "threadName"@ {
            Some(JsonView::Text(c.thread->0@))
        } else if k == "message"@ {
            Some(
                JsonView::Text(
                    match message {
                        Some(m) => m,
                        None => Seq::empty(),
                    },
                ),
            )
        } else if k == "loggerName"@ {
            Some(JsonView::Text(c.target@))
        } else if k == "level"@ {
            Some(JsonView::Text(c.level@))
        } else if k == "sequence"@ {
            Some(JsonView::Int(c.sequence as int))
        } else if k == "timestamp"@ {
            Some(JsonView::Text(c.timestamp@))
        } else {
            fields.member(k)
        },
{
    let m = JsonView::Text(
        match message {
            Some(m) => m,
            None => Seq::empty(),
        },
    );
    json::member_with(fields, "timestamp"@, JsonView::Text(c.timestamp@), k);
    let a = fields.with("timestamp"@, JsonView::Text(c.timestamp@));
    json::member_with(a, "sequence"@, JsonView::Int(c.sequence as int), k);
    let b = a.with("sequence"@, JsonView::Int(c.sequence as int));
    json::member_with(b, "level"@, JsonView::Text(c.level@), k);
    let d = b.with("level"@, JsonView::Text(c.level@));
    json::member_with(d, "loggerName"@, JsonView::Text(c.target@), k);
    let e = d.with("loggerName"@, JsonView::Text(c.target@));
    json::member_with(e, "message"@, m, k);
    let base = e.with("message"@, m);
    let threaded = match c.thread {
        Some(t) => base.with("threadName"@, JsonView::Text(t@)),
        None => base,
    };
    if c.thread is Some {
        json::member_with(base, "threadName"@, JsonView::Text(c.thread->0@), k);
    }
    json::member_with(threaded, "service.name"@, JsonView::Text(c.service_name@), k);
    let served = threaded.with("service.name"@, JsonView::Text(c.service_name@));
    if c.trace is Some {
        let t = c.trace->0;
        json::member_with(served, "traceId"@, JsonView::Text(t.trace_id@), k);
        let f = served.with("traceId"@, JsonView::Text(t.trace_id@));
        json::member_with(f, "spanId"@, JsonView::Text(t.span_id@), k);
        let g = f.with("spanId"@, JsonView::Text(t.span_id@));
        let s = JsonView::Text(
            if t.sampled {
                "true"@
            } else {
                "false"@
            },
        );
        json::member_with(g, "sampled"@, s, k);
    }
}

/// A reserved member of a log line is never an event's field of the same name.
pub proof fn reserved_members_win(fields: JsonView, message: Option<Seq<char>>, c: LogContext)
    requires
        fields is Object,
    ensures
        log_document(fields, message, c).text_member("level"@) == Some(c.level@),
        log_document(fields, message, c).text_member("timestamp"@) == Some(c.timestamp@),
        log_document(fields, message, c).text_member("loggerName"@) == Some(c.target@),
        log_document(fields, message, c).text_member("service.name"@) == Some(c.service_name@),
        log_document(fields, message, c).member("sequence"@) == Some(
            JsonView::Int(c.sequence as int),
        ),
        message is Some ==> log_document(fields, message, c).text_member("message"@) == message,
        c.trace is Some ==> log_document(fields, message, c).text_member("traceId"@) == Some(
            c.trace->0.trace_id@,
        ) && log_document(fields, message, c).text_member("spanId"@) == Some(c.trace->0.span_id@)
            && log_document(fields, message, c).text_member("sampled"@) == Some(
            if c.trace->0.sampled {
                "true"@
            } else {
                "false"@
            },
        ),
        message is None ==> log_document(fields, message, c).text_member("message"@) == Some(
            Seq::<char>::empty(),
        ),
        c.thread matches Some(t) ==> log_document(fields, message, c).text_member("threadName"@)
            == Some(t@),
{
    reserved_names_differ();
    log_member(fields, message, c, "level"@);
    log_member(fields, message, c, "timestamp"@);
    log_member(fields, message, c, "loggerName"@);
    log_member(fields, message, c, "service.name"@);
    log_member(fields, message, c, "sequence"@);
    log_member(fields, message, c, "message"@);
    log_member(fields, message, c, "threadName"@);
    log_member(fields, message, c, "sampled"@);
    log_member(fields, message, c, "traceId"@);
    log_member(fields, message, c, "spanId"@);
}

/// Every other field of an event stands in its log line as it is.
pub proof fn other_fields_stay(
    fields: JsonView,
    message: Option<Seq<char>>,
    c: LogContext,
    k: Seq<char>,
)
    requires
        fields is Object,
        !reserved(k),
    ensures
        log_document(fields, message, c).member(k) == fields.member(k),
{
    log_member(fields, message, c, k);
}

} // verus!
