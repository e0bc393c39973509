//! Where configuration values come from: the environment first, then the properties file, with
//! references inside a value resolved before it is read.

use vstd::prelude::*;

use crate::duration::Duration;
use crate::duration;
use crate::keyed;
use crate::keyed::TextMap;
use crate::text;

verus! {

// ---- the model ---------------------------------------------------------------------------------

/// What a configuration is resolved from.
pub struct Inputs {
    /// The properties file.
    pub file: Seq<(Seq<char>, Seq<char>)>,
    /// The environment: the value of a name.
    pub env: spec_fn(Seq<char>) -> Option<Seq<char>>,
    /// A value with its references resolved, or what is wrong with them.
    pub resolve: Resolution,
    /// How decimal numbers of a unit are read.
    pub read: duration::Reading,
}

/// What an optional text holds.
pub open spec fn opt(s: Option<String>) -> Option<Seq<char>> {
    match s {
        Some(t) => Some(t@),
        None => None,
    }
}

/// The same optional text again.
pub fn copy_opt(s: &Option<String>) -> (r: Option<String>)
    ensures
        opt(r) == opt(*s),
{
    match s {
        Some(t) => Some(t.clone()),
        None => None,
    }
}

/// What the outcome of resolving references holds.
pub open spec fn outcome(r: Result<String, String>) -> Result<Seq<char>, Seq<char>> {
    match r {
        Ok(t) => Ok(t@),
        Err(e) => Err(e@),
    }
}

/// How references are resolved: the value, or what is wrong with the reference.
pub type Resolution = spec_fn(Seq<char>) -> Result<Seq<char>, Seq<char>>;

/// Whether every answer of `resolve` is the one that `to` gives.
pub open spec fn resolves<R: Fn(&str) -> Result<String, String>>(resolve: R, to: Resolution) -> bool {
    forall|s: &str, r: Result<String, String>| #[trigger]
        call_ensures(resolve, (s,), r) ==> outcome(r) == to(s@)
}

/// The sources of a configuration: the file, and three ways to ask outside.
pub struct Sources<'a, E, R, M> {
    /// The properties file.
    pub file: &'a TextMap<String>,
    /// The value of an environment name.
    pub env: E,
    /// A value with its references resolved.
    pub resolve: R,
    /// The whole milliseconds of a decimal number in a unit of the given length.
    pub millis: M,
}

impl<
    'a,
    E: Fn(&str) -> Option<String>,
    R: Fn(&str) -> Result<String, String>,
    M: Fn(&str, u64) -> Option<u64>,
> Sources<'a, E, R, M> {
    /// Whether these sources answer as `m` says.
    pub open spec fn are(&self, m: Inputs) -> bool {
        &&& self.file@ == m.file
        &&& forall|k: &str, r: Option<String>| #[trigger]
            call_ensures(self.env, (k,), r) ==> opt(r) == (m.env)(k@)
        &&& forall|v: &str, r: Result<String, String>| #[trigger]
            call_ensures(self.resolve, (v,), r) ==> outcome(r) == (m.resolve)(v@)
        &&& duration::reads(self.millis, m.read)
    }

    /// Whether these sources may be asked about anything.
    pub open spec fn ready(&self) -> bool {
        &&& forall|k: &str| call_requires(self.env, (k,))
        &&& forall|v: &str| call_requires(self.resolve, (v,))
        &&& duration::askable(self.millis)
    }
}

impl Inputs {
    /// The value of a key as it is written: the environment's, else the file's.
    pub open spec fn raw(self, key: Seq<char>, name: Seq<char>) -> Option<Seq<char>> {
        match (self.env)(name) {
            Some(v) => Some(v),
            None => keyed::lookup(self.file, key),
        }
    }

    /// The value of a key with its references resolved. A reference that does not resolve is an
    /// error of the key.
    pub open spec fn setting(self, key: Seq<char>, name: Seq<char>) -> Result<
        Option<Seq<char>>,
        Seq<char>,
    > {
        match self.raw(key, name) {
            None => Ok(None),
            Some(raw) => match (self.resolve)(raw) {
                Ok(v) => Ok(Some(v)),
                Err(e) => Err("config key '"@ + key + "': "@ + e),
            },
        }
    }

    /// A key that holds a duration, `default` where it is not set.
    pub open spec fn duration_setting(
        self,
        key: Seq<char>,
        name: Seq<char>,
        default: Duration,
    ) -> Result<Duration, Seq<char>> {
        match self.setting(key, name) {
            Err(e) => Err(e),
            Ok(None) => Ok(default),
            Ok(Some(raw)) => match duration::duration(raw, self.read) {
                Ok(d) => Ok(d),
                Err(e) => Err(key + ": '"@ + raw + "' — "@ + e),
            },
        }
    }

    /// A key that holds a number from `min` to `max`.
    pub open spec fn number_setting(
        self,
        key: Seq<char>,
        name: Seq<char>,
        min: nat,
        max: nat,
        complaint: Seq<char>,
    ) -> Result<Option<nat>, Seq<char>> {
        match self.setting(key, name) {
            Err(e) => Err(e),
            Ok(None) => Ok(None),
            Ok(Some(raw)) => match text::unsigned(text::trimmed(raw), max) {
                Some(n) => if n >= min {
                    Ok(Some(n))
                } else {
                    Err(key + ": '"@ + raw + "' "@ + complaint)
                },
                None => Err(key + ": '"@ + raw + "' "@ + complaint),
            },
        }
    }

    /// A key that holds a signed number of at least `min`.
    pub open spec fn signed_setting(
        self,
        key: Seq<char>,
        name: Seq<char>,
        min: int,
        complaint: Seq<char>,
    ) -> Result<Option<int>, Seq<char>> {
        match self.setting(key, name) {
            Err(e) => Err(e),
            Ok(None) => Ok(None),
            Ok(Some(raw)) => match text::signed(
                text::trimmed(raw),
                i32::MIN as int,
                i32::MAX as int,
            ) {
                Some(n) => if n >= min {
                    Ok(Some(n))
                } else {
                    Err(key + ": '"@ + raw + "' "@ + complaint)
                },
                None => Err(key + ": '"@ + raw + "' "@ + complaint),
            },
        }
    }

    /// A key that holds a truth value, `default` where it is not set.
    pub open spec fn flag_setting(self, key: Seq<char>, name: Seq<char>, default: bool) -> Result<
        bool,
        Seq<char>,
    > {
        match self.setting(key, name) {
            Err(e) => Err(e),
            Ok(None) => Ok(default),
            Ok(Some(raw)) => truth(raw, key),
        }
    }

    /// A key that holds a text without white space around it; blank is not set.
    pub open spec fn trimmed_setting(self, key: Seq<char>, name: Seq<char>) -> Result<
        Option<Seq<char>>,
        Seq<char>,
    > {
        match self.setting(key, name) {
            Ok(Some(raw)) => if text::trimmed(raw).len() > 0 {
                Ok(Some(text::trimmed(raw)))
            } else {
                Ok(None)
            },
            other => other,
        }
    }

    /// A key that holds a text as it stands; blank is not set.
    pub open spec fn nonblank_setting(self, key: Seq<char>, name: Seq<char>) -> Result<
        Option<Seq<char>>,
        Seq<char>,
    > {
        match self.setting(key, name) {
            Ok(Some(raw)) => if text::trimmed(raw).len() > 0 {
                Ok(Some(raw))
            } else {
                Ok(None)
            },
            other => other,
        }
    }
}

/// What a truth value written as `raw` means.
pub open spec fn truth(raw: Seq<char>, key: Seq<char>) -> Result<bool, Seq<char>> {
    let word = text::lowered(text::trimmed(raw));
    if word == "true"@ || word == "1"@ || word == "yes"@ || word == "on"@ {
        Ok(true)
    } else if word == "false"@ || word == "0"@ || word == "no"@ || word == "off"@ {
        Ok(false)
    } else {
        Err(key + ": '"@ + word + "' is not a boolean (true/false)"@)
    }
}

/// A value set in the environment is used whatever the file says, and a value set only in the file
/// is used as if the environment had it.
pub proof fn environment_first(m: Inputs, key: Seq<char>, name: Seq<char>, v: Seq<char>)
    ensures
        (m.env)(name) == Some(v) ==> m.raw(key, name) == Some(v),
        (m.env)(name) is None ==> m.raw(key, name) == keyed::lookup(m.file, key),
{
}

/// A configuration error: a missing required key or an unusable value.
#[derive(Debug, Clone, PartialEq, Eq)]
pub struct ConfigError(pub String);

impl ConfigError {
    /// What is wrong.
    pub fn message(&self) -> (r: String)
        ensures
            r@ == self.0@,
    {
        self.0.clone()
    }
}

/// What the outcome of reading an optional text holds.
pub open spec fn text_outcome(r: Result<Option<String>, ConfigError>) -> Result<
    Option<Seq<char>>,
    Seq<char>,
> {
    match r {
        Ok(v) => Ok(opt(v)),
        Err(e) => Err(e.0@),
    }
}

/// What the outcome of reading a value holds.
pub open spec fn plain_outcome<T>(r: Result<T, ConfigError>) -> Result<T, Seq<char>> {
    match r {
        Ok(v) => Ok(v),
        Err(e) => Err(e.0@),
    }
}

// ---- reading -----------------------------------------------------------------------------------

/// Parse a truth value (`true`/`false`/`1`/`0`/`yes`/`no`/`on`/`off`, either case of letters).
pub fn parse_bool(raw: &str, key: &str) -> (r: Result<bool, ConfigError>)
    ensures
        plain_outcome(r) == truth(raw@, key@),
{
    let word = text::to_lower(&text::trim(raw));
    if text::same(&word, "true") || text::same(&word, "1") || text::same(&word, "yes")
        || text::same(&word, "on") {
        Ok(true)
    } else if text::same(&word, "false") || text::same(&word, "0") || text::same(&word, "no")
        || text::same(&word, "off") {
        Ok(false)
    } else {
        Err(ConfigError(text::text4(key, ": '", &word, "' is not a boolean (true/false)")))
    }
}

impl<
    'a,
    E: Fn(&str) -> Option<String>,
    R: Fn(&str) -> Result<String, String>,
    M: Fn(&str, u64) -> Option<u64>,
> Sources<'a, E, R, M> {
    /// The value of a key with its references resolved.
    pub fn value(&self, key: &str, name: &str) -> (r: Result<Option<String>, ConfigError>)
        requires
            self.ready(),
        ensures
            forall|m: Inputs| #[trigger]
                self.are(m) ==> text_outcome(r) == m.setting(key@, name@),
    {
        let raw = match (self.env)(name) {
            Some(v) => Some(v),
            None => match self.file.get(key) {
                Some(v) => Some(v.clone()),
                None => None,
            },
        };
        match raw {
            None => Ok(None),
            Some(raw) => match (self.resolve)(raw.as_str()) {
                Ok(v) => Ok(Some(v)),
                Err(e) => Err(ConfigError(text::text4("config key '", key, "': ", &e))),
            },
        }
    }

    /// A key that holds a duration.
    pub fn duration_key(&self, key: &str, name: &str, default: Duration) -> (r: Result<
        Duration,
        ConfigError,
    >)
        requires
            self.ready(),
        ensures
            forall|m: Inputs| #[trigger]
                self.are(m) ==> plain_outcome(r) == m.duration_setting(key@, name@, default),
    {
        match self.value(key, name) {
            Err(e) => Err(e),
            Ok(None) => Ok(default),
            Ok(Some(raw)) => match duration::parse_duration(&raw, &self.millis) {
                Ok(d) => Ok(d),
                Err(e) => Err(ConfigError(text::text5(key, ": '", &raw, "' — ", &e))),
            },
        }
    }

    /// A key that holds a number from `min` to `max`.
    pub fn number_key(&self, key: &str, name: &str, min: u64, max: u64, complaint: &str) -> (r:
        Result<Option<u64>, ConfigError>)
        requires
            self.ready(),
        ensures
            forall|m: Inputs| #[trigger]
                self.are(m) ==> match r {
                    Ok(Some(n)) => m.number_setting(
                        key@,
                        name@,
                        min as nat,
                        max as nat,
                        complaint@,
                    ) == Ok::<Option<nat>, Seq<char>>(Some(n as nat)),
                    Ok(None) => m.number_setting(
                        key@,
                        name@,
                        min as nat,
                        max as nat,
                        complaint@,
                    ) == Ok::<Option<nat>, Seq<char>>(None),
                    Err(e) => m.number_setting(
                        key@,
                        name@,
                        min as nat,
                        max as nat,
                        complaint@,
                    ) == Err::<Option<nat>, Seq<char>>(e.0@),
                },
            r matches Ok(Some(n)) ==> min <= n <= max,
    {
        match self.value(key, name) {
            Err(e) => Err(e),
            Ok(None) => Ok(None),
            Ok(Some(raw)) => {
                match text::parse_unsigned(&text::trim(&raw), max) {
                    Some(n) => {
                        if n >= min {
                            return Ok(Some(n));
                        }
                    },
                    None => {},
                }
                Err(ConfigError(text::text5(key, ": '", &raw, "' ", complaint)))
            },
        }
    }

    /// A key that holds a signed number of at least `min`.
    pub fn signed_key(&self, key: &str, name: &str, min: i32, complaint: &str) -> (r: Result<
        Option<i32>,
        ConfigError,
    >)
        requires
            self.ready(),
        ensures
            forall|m: Inputs| #[trigger]
                self.are(m) ==> match r {
                    Ok(Some(n)) => m.signed_setting(key@, name@, min as int, complaint@) == Ok::<
                        Option<int>,
                        Seq<char>,
                    >(Some(n as int)),
                    Ok(None) => m.signed_setting(key@, name@, min as int, complaint@) == Ok::<
                        Option<int>,
                        Seq<char>,
                    >(None),
                    Err(e) => m.signed_setting(key@, name@, min as int, complaint@) == Err::<
                        Option<int>,
                        Seq<char>,
                    >(e.0@),
                },
            r matches Ok(Some(n)) ==> min <= n,
    {
        match self.value(key, name) {
            Err(e) => Err(e),
            Ok(None) => Ok(None),
            Ok(Some(raw)) => {
                match text::parse_i32(&text::trim(&raw)) {
                    Some(n) => {
                        if n >= min {
                            return Ok(Some(n));
                        }
                    },
                    None => {},
                }
                Err(ConfigError(text::text5(key, ": '", &raw, "' ", complaint)))
            },
        }
    }

    /// A key that holds a truth value.
    pub fn flag_key(&self, key: &str, name: &str, default: bool) -> (r: Result<bool, ConfigError>)
        requires
            self.ready(),
        ensures
            forall|m: Inputs| #[trigger]
                self.are(m) ==> plain_outcome(r) == m.flag_setting(key@, name@, default),
    {
        match self.value(key, name) {
            Err(e) => Err(e),
            Ok(None) => Ok(default),
            Ok(Some(raw)) => parse_bool(&raw, key),
        }
    }

    /// A key that holds a text without white space around it.
    pub fn trimmed_key(&self, key: &str, name: &str) -> (r: Result<Option<String>, ConfigError>)
        requires
            self.ready(),
        ensures
            forall|m: Inputs| #[trigger]
                self.are(m) ==> text_outcome(r) == m.trimmed_setting(key@, name@),
    {
        match self.value(key, name) {
            Ok(Some(raw)) => {
                let v = text::trim(&raw);
                if v.as_str().is_empty() {
                    Ok(None)
                } else {
                    Ok(Some(v))
                }
            },
            other => other,
        }
    }

    /// A key that holds a text as it stands.
    pub fn nonblank_key(&self, key: &str, name: &str) -> (r: Result<Option<String>, ConfigError>)
        requires
            self.ready(),
        ensures
            forall|m: Inputs| #[trigger]
                self.are(m) ==> text_outcome(r) == m.nonblank_setting(key@, name@),
    {
        match self.value(key, name) {
            Ok(Some(raw)) => {
                if text::trim(&raw).as_str().is_empty() {
                    Ok(None)
                } else {
                    Ok(Some(raw))
                }
            },
            other => other,
        }
    }
}

// ---- the properties file -----------------------------------------------------------------------

/// `out` with one line of a properties file entered: blank lines, comments and lines without an
/// equals sign enter nothing.
pub open spec fn entered(line: Seq<char>, out: Seq<(Seq<char>, Seq<char>)>) -> Seq<
    (Seq<char>, Seq<char>),
> {
    let l = text::trimmed(line);
    if l.len() == 0 || l[0] == '#' || l[0] == '!' {
        out
    } else {
        match text::cut(l, '=') {
            Some(parts) => keyed::put(out, text::trimmed(parts.0), text::trimmed(parts.1)),
            None => out,
        }
    }
}

/// The lines of a properties file entered in their order; the last line of a key stands.
pub open spec fn properties(lines: Seq<Seq<char>>) -> Seq<(Seq<char>, Seq<char>)>
    decreases lines.len(),
{
    if lines.len() == 0 {
        Seq::empty()
    } else {
        entered(lines.last(), properties(lines.drop_last()))
    }
}

/// The values of a properties file (`key=value` lines, `#` and `!` comments).
pub fn parse_properties(contents: &str) -> (r: TextMap<String>)
    ensures
        r@ == properties(text::pieces(contents@, '\n')),
{
    let lines = text::split(contents, '\n');
    let ghost all = text::texts(lines@);
    let mut out: TextMap<String> = TextMap::new();
    let mut i: usize = 0;
    while i < lines.len()
        invariant
            i <= lines.len(),
            all == text::texts(lines@),
            out@ == properties(all.take(i as int)),
        decreases lines.len() - i,
    {
        let ghost next = all.take(i + 1);
        assert(next.drop_last() =~= all.take(i as int));
        assert(next.last() == lines@[i as int]@);
        let line = text::trim(&lines[i]);
        let x = text::chars_of(&line);
        if x.len() > 0 && x[0] != '#' && x[0] != '!' {
            match text::split_once(&line, '=') {
                Some((k, v)) => {
                    out.insert(text::trim(&k), text::trim(&v));
                },
                None => {},
            }
        }
        i = i + 1;
    }
    assert(all.take(all.len() as int) =~= all);
    out
}

} // verus!
