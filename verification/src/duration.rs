//! Lengths of time, and how configuration values write them.

use vstd::prelude::*;

use crate::text;

verus! {

/// A length of time: whole seconds and the nanoseconds beyond them.
#[derive(Debug, Clone, Copy, PartialEq, Eq, Structural)]
pub struct Duration {
    secs: u64,
    nanos: u32,
}

/// How std's `{:?}` writes a duration of `secs` seconds and `nanos` nanoseconds.
pub uninterp spec fn debug_text(secs: u64, nanos: u32) -> Seq<char>;

/// std's `Debug` text of a `std::time::Duration`, named by [`debug_text`]. What the text looks like
/// is left unsaid.
#[verifier::external_body]
fn debug_of(secs: u64, nanos: u32) -> (r: String)
    requires
        nanos < 1_000_000_000,
    ensures
        r@ == debug_text(secs, nanos),
{
    format!("{:?}", std::time::Duration::new(secs, nanos))
}

impl Duration {
    #[verifier::type_invariant]
    spec fn normal(self) -> bool {
        self.nanos < 1_000_000_000
    }

    /// The whole seconds.
    pub closed spec fn whole_secs(self) -> u64 {
        self.secs
    }

    /// The nanoseconds beyond the whole seconds.
    pub closed spec fn rest_nanos(self) -> u32 {
        self.nanos
    }

    /// The whole length in nanoseconds.
    pub open spec fn total(self) -> nat {
        (self.whole_secs() as nat) * 1_000_000_000 + self.rest_nanos() as nat
    }

    /// The duration of `secs` seconds.
    pub closed spec fn of_secs(secs: u64) -> Duration {
        Duration { secs, nanos: 0 }
    }

    /// The duration of `ms` milliseconds.
    pub closed spec fn of_millis(ms: u64) -> Duration {
        Duration { secs: ms / 1000, nanos: ((ms % 1000) * 1_000_000) as u32 }
    }

    /// How std's `{:?}` writes this duration.
    pub open spec fn debug(self) -> Seq<char> {
        debug_text(self.whole_secs(), self.rest_nanos())
    }

    /// The duration of `secs` seconds.
    pub fn from_secs(secs: u64) -> (r: Duration)
        ensures
            r == Duration::of_secs(secs),
            r.whole_secs() == secs,
            r.rest_nanos() == 0,
    {
        Duration { secs, nanos: 0 }
    }

    /// The duration of `ms` milliseconds.
    pub fn from_millis(ms: u64) -> (r: Duration)
        ensures
            r == Duration::of_millis(ms),
            r.whole_secs() == ms / 1000,
            r.rest_nanos() == (ms % 1000) * 1_000_000,
    {
        Duration { secs: ms / 1000, nanos: ((ms % 1000) * 1_000_000) as u32 }
    }

    /// The whole seconds.
    pub fn as_secs(&self) -> (r: u64)
        ensures
            r == self.whole_secs(),
    {
        self.secs
    }

    /// The nanoseconds beyond the whole seconds.
    pub fn subsec_nanos(&self) -> (r: u32)
        ensures
            r == self.rest_nanos(),
            r < 1_000_000_000,
    {
        proof {
            use_type_invariant(self);
        }
        self.nanos
    }

    /// Whether this is no time at all.
    pub fn is_zero(&self) -> (r: bool)
        ensures
            r == (self.total() == 0),
    {
        self.secs == 0 && self.nanos == 0
    }

    /// Whether this is shorter than `other`.
    pub fn shorter_than(&self, other: &Duration) -> (r: bool)
        ensures
            r == (self.total() < other.total()),
    {
        proof {
            use_type_invariant(self);
            use_type_invariant(other);
        }
        self.secs < other.secs || (self.secs == other.secs && self.nanos < other.nanos)
    }

    /// How std's `{:?}` writes this duration.
    pub fn to_debug_text(&self) -> (r: String)
        ensures
            r@ == self.debug(),
    {
        proof {
            use_type_invariant(self);
        }
        debug_of(self.secs, self.nanos)
    }
}

// ---- the ISO-8601 form -------------------------------------------------------------------------

/// A duration of seconds and one of milliseconds measure what they say.
pub proof fn a_duration_measures_time(n: u64)
    ensures
        Duration::of_secs(n).total() == n * 1_000_000_000,
        Duration::of_millis(n).total() == n * 1_000_000,
{
}

/// The milliseconds in the unit that `c` names in the date part: only days.
pub open spec fn date_unit(c: char) -> Option<u64> {
    if c == 'D' {
        Some(86_400_000)
    } else {
        None
    }
}

/// The milliseconds in the unit that `c` names in the time part: hours, minutes or seconds.
pub open spec fn time_unit(c: char) -> Option<u64> {
    if c == 'H' {
        Some(3_600_000)
    } else if c == 'M' {
        Some(60_000)
    } else if c == 'S' {
        Some(1_000)
    } else {
        None
    }
}

/// The unit that `c` names in one part of a duration.
pub open spec fn unit(c: char, in_time: bool) -> Option<u64> {
    if in_time {
        time_unit(c)
    } else {
        date_unit(c)
    }
}

/// Reads decimal numbers: the whole milliseconds that a number of a unit comes to, `None` where the
/// text is no number.
pub type Reading = spec_fn(Seq<char>, u64) -> Option<u64>;

/// What one part of a duration comes to so far: the milliseconds, and the digits of a number whose
/// unit is still to come.
pub struct Tally {
    pub total: u64,
    pub number: Seq<char>,
}

/// The tally after the components `s`: digits and points gather, and a unit letter closes the
/// number before it. A sum past `u64` wraps.
pub open spec fn tally(s: Seq<char>, in_time: bool, start: u64, read: Reading) -> Result<
    Tally,
    Seq<char>,
>
    decreases s.len(),
{
    if s.len() == 0 {
        Ok(Tally { total: start, number: Seq::empty() })
    } else {
        match tally(s.drop_last(), in_time, start, read) {
            Err(e) => Err(e),
            Ok(t) => {
                let c = s.last();
                if text::is_digit(c) || c == '.' {
                    Ok(Tally { total: t.total, number: t.number.push(c) })
                } else {
                    match unit(c, in_time) {
                        None => Err("unexpected character '"@ + seq![c] + "'"@),
                        Some(u) => match read(t.number, u) {
                            None => Err("invalid number '"@ + t.number + "'"@),
                            Some(ms) => Ok(
                                Tally {
                                    total: wrapped(t.total, ms),
                                    number: Seq::empty(),
                                },
                            ),
                        },
                    }
                }
            },
        }
    }
}

/// The sum of two counts modulo two to the sixty-fourth.
pub open spec fn wrapped(a: u64, b: u64) -> u64 {
    if a + b > u64::MAX {
        (a + b - u64::MAX - 1) as u64
    } else {
        (a + b) as u64
    }
}

/// What one part of a duration adds up to.
pub open spec fn part(s: Seq<char>, in_time: bool, start: u64, read: Reading) -> Result<
    u64,
    Seq<char>,
> {
    match tally(s, in_time, start, read) {
        Err(e) => Err(e),
        Ok(t) => if t.number.len() > 0 {
            Err("dangling number '"@ + t.number + "' (missing unit)"@)
        } else {
            Ok(t.total)
        },
    }
}

/// The duration that `raw` writes: whole seconds, or the ISO-8601 form of days, hours, minutes and
/// seconds in either case of letters.
pub open spec fn duration(raw: Seq<char>, read: Reading) -> Result<Duration, Seq<char>> {
    let value = text::trimmed(raw);
    let upper = text::raised(value);
    if value.len() == 0 {
        Err("empty duration"@)
    } else if text::unsigned(value, u64::MAX as nat) is Some {
        Ok(Duration::of_secs(text::unsigned(value, u64::MAX as nat)->0 as u64))
    } else if upper[0] != 'P' {
        Err("expected an ISO-8601 duration (P…/PT…) or bare seconds"@)
    } else {
        let body = upper.drop_first();
        let (date, time) = match text::cut(body, 'T') {
            Some(parts) => (parts.0, Some(parts.1)),
            None => (body, None),
        };
        if date.len() == 0 && (time is None || time->0.len() == 0) {
            Err("ISO-8601 duration has no components"@)
        } else {
            match part(date, false, 0, read) {
                Err(e) => Err(e),
                Ok(days) => match time {
                    None => Ok(Duration::of_millis(days)),
                    Some(t) => if t.len() == 0 {
                        Err("ISO-8601 duration has a 'T' with no time components"@)
                    } else {
                        match part(t, true, days, read) {
                            Err(e) => Err(e),
                            Ok(total) => Ok(Duration::of_millis(total)),
                        }
                    },
                },
            }
        }
    }
}

/// Whether every answer of `millis` is the one that `read` gives.
pub open spec fn reads<M: Fn(&str, u64) -> Option<u64>>(millis: M, read: Reading) -> bool {
    forall|s: &str, u: u64, r: Option<u64>|
        #[trigger] call_ensures(millis, (s, u), r) ==> r == read(s@, u)
}

/// Whether `millis` may be asked about anything.
pub open spec fn askable<M: Fn(&str, u64) -> Option<u64>>(millis: M) -> bool {
    forall|s: &str, u: u64| call_requires(millis, (s, u))
}

/// Add up one part of a duration, from `start` on.
fn add_up<M: Fn(&str, u64) -> Option<u64>>(
    components: &str,
    in_time: bool,
    start: u64,
    millis: &M,
) -> (r: Result<u64, String>)
    requires
        askable(*millis),
    ensures
        forall|read: Reading| #[trigger]
            reads(*millis, read) ==> match r {
                Ok(total) => part(components@, in_time, start, read) == Ok::<u64, Seq<char>>(total),
                Err(e) => part(components@, in_time, start, read) == Err::<u64, Seq<char>>(e@),
            },
{
    let x = text::chars_of(components);
    let mut number = String::new();
    let mut total: u64 = start;
    let mut i: usize = 0;
    assert(x@.take(0) =~= Seq::empty());
    while i < x.len()
        invariant
            i <= x.len(),
            askable(*millis),
            x@ == components@,
            forall|read: Reading| #[trigger]
                reads(*millis, read) ==> tally(x@.take(i as int), in_time, start, read) == Ok::<
                    Tally,
                    Seq<char>,
                >(Tally { total, number: number@ }),
        decreases x.len() - i,
    {
        let c = x[i];
        let ghost so_far = number@;
        let ghost sum = total;
        proof {
            let next = x@.take(i + 1);
            assert(next.drop_last() =~= x@.take(i as int));
            assert(next.last() == c);
            assert forall|read: Reading| #[trigger] reads(*millis, read) && tally(
                next,
                in_time,
                start,
                read,
            ) is Err implies part(x@, in_time, start, read) is Err && part(x@, in_time, start, read)->Err_0
                == tally(next, in_time, start, read)->Err_0 by {
                stays_wrong(x@, i + 1, in_time, start, read);
            }
        }
        if ('0' <= c && c <= '9') || c == '.' {
            number.push(c);
        } else {
            let per: Option<u64> = if in_time {
                if c == 'H' {
                    Some(3_600_000)
                } else if c == 'M' {
                    Some(60_000)
                } else if c == 'S' {
                    Some(1_000)
                } else {
                    None
                }
            } else if c == 'D' {
                Some(86_400_000)
            } else {
                None
            };
            match per {
                None => {
                    let mut e = "unexpected character '".to_owned();
                    e.push(c);
                    e.append("'");
                    assert("unexpected character '"@ + seq![c] =~= "unexpected character '"@.push(
                        c,
                    ));
                    return Err(e);
                },
                Some(u) => match millis(number.as_str(), u) {
                    None => {
                        return Err(text::text3("invalid number '", &number, "'"));
                    },
                    Some(ms) => {
                        total = total.wrapping_add(ms);
                        number = String::new();
                    },
                },
            }
        }
        i = i + 1;
    }
    assert(x@.take(x.len() as int) =~= x@);
    if !number.as_str().is_empty() {
        return Err(text::text3("dangling number '", &number, "' (missing unit)"));
    }
    Ok(total)
}

/// A part that is wrong after some of its characters is wrong in the same way after all of them.
proof fn stays_wrong(s: Seq<char>, n: int, in_time: bool, start: u64, read: Reading)
    requires
        0 <= n <= s.len(),
        tally(s.take(n), in_time, start, read) is Err,
    ensures
        tally(s, in_time, start, read) == tally(s.take(n), in_time, start, read),
    decreases s.len(),
{
    if n == s.len() {
        assert(s.take(n) =~= s);
    } else {
        assert(s.drop_last().take(n) =~= s.take(n));
        stays_wrong(s.drop_last(), n, in_time, start, read);
    }
}

/// Parse a duration value: the ISO-8601 `P…DT…H…M…S` subset (`PT5S`, `PT0.2S`, `PT1M30S`, `P7D`;
/// either case of letters) or bare whole seconds. Weeks, months and years are not accepted.
///
/// `millis` reads one decimal number: the whole milliseconds it comes to in a unit of the given
/// length, `None` where the text is no finite number.
pub fn parse_duration<M: Fn(&str, u64) -> Option<u64>>(raw: &str, millis: &M) -> (r: Result<
    Duration,
    String,
>)
    requires
        askable(*millis),
    ensures
        forall|read: Reading| #[trigger]
            reads(*millis, read) ==> match r {
                Ok(d) => duration(raw@, read) == Ok::<Duration, Seq<char>>(d),
                Err(e) => duration(raw@, read) == Err::<Duration, Seq<char>>(e@),
            },
{
    let value = text::trim(raw);
    if value.as_str().is_empty() {
        return Err("empty duration".to_owned());
    }
    match text::parse_unsigned(&value, u64::MAX) {
        Some(seconds) => {
            return Ok(Duration::from_secs(seconds));
        },
        None => {},
    }
    let upper = text::to_upper(&value);
    let x = text::chars_of(&upper);
    if x[0] != 'P' {
        return Err("expected an ISO-8601 duration (P…/PT…) or bare seconds".to_owned());
    }
    let body = text::text_of(&x, 1, x.len());
    assert(body@ =~= upper@.drop_first());
    let (date_part, time_part) = match text::split_once(&body, 'T') {
        Some((date, time)) => (date, Some(time)),
        None => (body, None),
    };
    let no_time = match &time_part {
        Some(t) => t.as_str().is_empty(),
        None => true,
    };
    if date_part.as_str().is_empty() && no_time {
        return Err("ISO-8601 duration has no components".to_owned());
    }
    let days = match add_up(&date_part, false, 0, millis) {
        Ok(d) => d,
        Err(e) => {
            return Err(e);
        },
    };
    match time_part {
        None => Ok(Duration::from_millis(days)),
        Some(t) => {
            if t.as_str().is_empty() {
                return Err("ISO-8601 duration has a 'T' with no time components".to_owned());
            }
            match add_up(&t, true, days, millis) {
                Ok(total) => Ok(Duration::from_millis(total)),
                Err(e) => Err(e),
            }
        },
    }
}

} // verus!
