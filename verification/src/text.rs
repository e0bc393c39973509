//! Text as sequences of characters: the handful of string operations the engine's rules are
//! stated with, each as a spec function on `Seq<char>` and an executable function that computes it.

use vstd::prelude::*;

verus! {

broadcast use vstd::string::group_string_axioms;

// ---- what the standard library gives -----------------------------------------------------------

/// `String::push` appends one character and changes nothing else.
pub assume_specification[ String::push ](s: &mut String, c: char)
    ensures
        final(s)@ == old(s)@.push(c),
;

// ---- white space -------------------------------------------------------------------------------

/// Whether a character has Unicode's `White_Space` property.
pub open spec fn white_space(c: char) -> bool {
    let n = c as u32;
    ||| 0x09 <= n <= 0x0d
    ||| n == 0x20
    ||| n == 0x85
    ||| n == 0xa0
    ||| n == 0x1680
    ||| 0x2000 <= n <= 0x200a
    ||| n == 0x2028
    ||| n == 0x2029
    ||| n == 0x202f
    ||| n == 0x205f
    ||| n == 0x3000
}

/// Whether a character has Unicode's `White_Space` property.
pub fn is_white_space(c: char) -> (r: bool)
    ensures
        r == white_space(c),
{
    let n: u32 = c as u32;
    (0x09 <= n && n <= 0x0d) || n == 0x20 || n == 0x85 || n == 0xa0 || n == 0x1680 || (0x2000 <= n
        && n <= 0x200a) || n == 0x2028 || n == 0x2029 || n == 0x202f || n == 0x205f || n == 0x3000
}

// ---- equality, order, concatenation ------------------------------------------------------------

/// Whether two texts hold the same characters.
pub fn same(a: &str, b: &str) -> (r: bool)
    ensures
        r == (a@ == b@),
{
    a.to_owned() == b.to_owned()
}

/// The order of texts: by the first character in which they differ, a proper prefix first.
pub open spec fn before(a: Seq<char>, b: Seq<char>) -> bool
    decreases a.len(),
{
    if b.len() == 0 {
        false
    } else if a.len() == 0 {
        true
    } else if a[0] != b[0] {
        a[0] < b[0]
    } else {
        before(a.drop_first(), b.drop_first())
    }
}

/// No text comes before itself.
pub proof fn before_irreflexive(a: Seq<char>)
    ensures
        !before(a, a),
    decreases a.len(),
{
    if a.len() > 0 {
        before_irreflexive(a.drop_first());
    }
}

/// Of two different texts exactly one comes before the other.
pub proof fn before_total(a: Seq<char>, b: Seq<char>)
    ensures
        a != b ==> (before(a, b) || before(b, a)),
        !(before(a, b) && before(b, a)),
    decreases a.len(),
{
    if a.len() == 0 || b.len() == 0 {
        if a.len() == 0 && b.len() == 0 {
            assert(a =~= b);
        }
    } else if a[0] == b[0] {
        before_total(a.drop_first(), b.drop_first());
        if a.drop_first() == b.drop_first() {
            assert(a =~= seq![a[0]] + a.drop_first());
            assert(b =~= seq![b[0]] + b.drop_first());
        }
    }
}

/// The order of texts is transitive.
pub proof fn before_transitive(a: Seq<char>, b: Seq<char>, c: Seq<char>)
    requires
        before(a, b),
        before(b, c),
    ensures
        before(a, c),
    decreases a.len(),
{
    if a.len() > 0 && b.len() > 0 && c.len() > 0 && a[0] == b[0] && b[0] == c[0] {
        before_transitive(a.drop_first(), b.drop_first(), c.drop_first());
    }
}

/// Whether `a` comes before `b`.
pub fn is_before(a: &str, b: &str) -> (r: bool)
    ensures
        r == before(a@, b@),
{
    let x = chars_of(a);
    let y = chars_of(b);
    let mut i: usize = 0;
    assert(x@.skip(0) =~= x@);
    assert(y@.skip(0) =~= y@);
    while i < x.len() && i < y.len()
        invariant
            i <= x.len(),
            i <= y.len(),
            x@ == a@,
            y@ == b@,
            before(x@, y@) == before(x@.skip(i as int), y@.skip(i as int)),
        decreases x.len() - i,
    {
        assert(x@.skip(i as int)[0] == x@[i as int]);
        assert(y@.skip(i as int)[0] == y@[i as int]);
        if x[i] != y[i] {
            return x[i] < y[i];
        }
        assert(x@.skip(i as int).drop_first() =~= x@.skip(i + 1));
        assert(y@.skip(i as int).drop_first() =~= y@.skip(i + 1));
        i = i + 1;
    }
    i < y.len()
}

/// `a` followed by `b`.
pub fn text2(a: &str, b: &str) -> (r: String)
    ensures
        r@ == a@ + b@,
{
    let mut s = a.to_owned();
    s.append(b);
    s
}

/// `a`, `b` and `c` in a row.
pub fn text3(a: &str, b: &str, c: &str) -> (r: String)
    ensures
        r@ == a@ + b@ + c@,
{
    let mut s = text2(a, b);
    s.append(c);
    s
}

/// Four texts in a row.
pub fn text4(a: &str, b: &str, c: &str, d: &str) -> (r: String)
    ensures
        r@ == a@ + b@ + c@ + d@,
{
    let mut s = text3(a, b, c);
    s.append(d);
    s
}

/// Five texts in a row.
pub fn text5(a: &str, b: &str, c: &str, d: &str, e: &str) -> (r: String)
    ensures
        r@ == a@ + b@ + c@ + d@ + e@,
{
    let mut s = text4(a, b, c, d);
    s.append(e);
    s
}

// ---- characters and parts ----------------------------------------------------------------------

/// The characters of a text.
pub fn chars_of(s: &str) -> (r: Vec<char>)
    ensures
        r@ == s@,
{
    let mut out: Vec<char> = Vec::new();
    for c in it: s.chars()
        invariant
            it.seq() == s@,
            out@ == s@.take(it.index() as int),
    {
        assert(s@.take(it.index() as int).push(c) =~= s@.take(it.index() + 1));
        out.push(c);
    }
    assert(s@.take(s@.len() as int) =~= s@);
    out
}

/// The text made of the characters `from..to`.
pub fn text_of(chars: &Vec<char>, from: usize, to: usize) -> (r: String)
    requires
        from <= to <= chars.len(),
    ensures
        r@ == chars@.subrange(from as int, to as int),
{
    let mut out = String::new();
    let mut i: usize = from;
    while i < to
        invariant
            from <= i <= to <= chars.len(),
            out@ == chars@.subrange(from as int, i as int),
        decreases to - i,
    {
        assert(chars@.subrange(from as int, i as int).push(chars@[i as int]) =~= chars@.subrange(
            from as int,
            i + 1,
        ));
        out.push(chars[i]);
        i = i + 1;
    }
    out
}

/// Whether `s` begins with `prefix`.
pub open spec fn begins(s: Seq<char>, prefix: Seq<char>) -> bool {
    prefix.len() <= s.len() && s.take(prefix.len() as int) == prefix
}

/// Whether `s` ends with `suffix`.
pub open spec fn finishes(s: Seq<char>, suffix: Seq<char>) -> bool {
    suffix.len() <= s.len() && s.skip(s.len() - suffix.len()) == suffix
}

/// `str::strip_prefix` on a text prefix.
pub fn strip_prefix(s: &str, prefix: &str) -> (r: Option<String>)
    ensures
        r is Some <==> begins(s@, prefix@),
        r is Some ==> r->0@ == s@.skip(prefix@.len() as int),
{
    let x = chars_of(s);
    let p = chars_of(prefix);
    if p.len() > x.len() {
        return None;
    }
    let mut i: usize = 0;
    while i < p.len()
        invariant
            i <= p.len() <= x.len(),
            x@ == s@,
            p@ == prefix@,
            s@.take(i as int) == prefix@.take(i as int),
        decreases p.len() - i,
    {
        if x[i] != p[i] {
            assert(s@.take(prefix@.len() as int)[i as int] != prefix@[i as int]);
            return None;
        }
        assert(s@.take(i + 1) =~= s@.take(i as int).push(s@[i as int]));
        assert(prefix@.take(i + 1) =~= prefix@.take(i as int).push(prefix@[i as int]));
        i = i + 1;
    }
    assert(prefix@.take(prefix@.len() as int) =~= prefix@);
    assert(x@.subrange(p.len() as int, x.len() as int) =~= s@.skip(prefix@.len() as int));
    Some(text_of(&x, p.len(), x.len()))
}

/// `str::starts_with` on a text prefix.
pub fn starts_with(s: &str, prefix: &str) -> (r: bool)
    ensures
        r == begins(s@, prefix@),
{
    strip_prefix(s, prefix).is_some()
}

/// `str::ends_with` on a text suffix.
pub fn ends_with(s: &str, suffix: &str) -> (r: bool)
    ensures
        r == finishes(s@, suffix@),
{
    let x = chars_of(s);
    let p = chars_of(suffix);
    if p.len() > x.len() {
        return false;
    }
    let base: usize = x.len() - p.len();
    let mut i: usize = 0;
    while i < p.len()
        invariant
            i <= p.len() <= x.len(),
            base == x.len() - p.len(),
            x@ == s@,
            p@ == suffix@,
            forall|j: int| 0 <= j < i ==> s@[base + j] == suffix@[j],
        decreases p.len() - i,
    {
        if x[base + i] != p[i] {
            assert(s@.skip(s@.len() - suffix@.len())[i as int] != suffix@[i as int]);
            return false;
        }
        i = i + 1;
    }
    assert(s@.skip(base as int) =~= suffix@);
    true
}

/// The place of the first `c` in `s`, or its length.
pub open spec fn first_at(s: Seq<char>, c: char) -> int
    decreases s.len(),
{
    if s.len() == 0 || s[0] == c {
        0
    } else {
        1 + first_at(s.drop_first(), c)
    }
}

/// The text before and after the first `c`, where there is one.
pub open spec fn cut(s: Seq<char>, c: char) -> Option<(Seq<char>, Seq<char>)> {
    let at = first_at(s, c);
    if at < s.len() {
        Some((s.take(at), s.skip(at + 1)))
    } else {
        None
    }
}

/// [`first_at`] is the least place that holds `c`.
pub proof fn first_at_is_least(s: Seq<char>, c: char)
    ensures
        0 <= first_at(s, c) <= s.len(),
        first_at(s, c) < s.len() ==> s[first_at(s, c)] == c,
        forall|i: int| 0 <= i < first_at(s, c) ==> s[i] != c,
    decreases s.len(),
{
    if s.len() > 0 && s[0] != c {
        let rest = s.drop_first();
        first_at_is_least(rest, c);
        assert forall|i: int| 0 <= i < first_at(s, c) implies s[i] != c by {
            if i > 0 {
                assert(rest[i - 1] == s[i]);
            }
        }
    }
}

/// The place of the first `c` among `chars` from `from` on, or their number.
pub fn find_char(chars: &Vec<char>, c: char) -> (r: usize)
    ensures
        r == first_at(chars@, c),
        r <= chars.len(),
{
    let mut i: usize = 0;
    assert(chars@.skip(0) =~= chars@);
    while i < chars.len() && chars[i] != c
        invariant
            i <= chars.len(),
            first_at(chars@, c) == i + first_at(chars@.skip(i as int), c),
        decreases chars.len() - i,
    {
        assert(chars@.skip(i as int)[0] == chars@[i as int]);
        assert(chars@.skip(i as int).drop_first() =~= chars@.skip(i + 1));
        i = i + 1;
    }
    if i < chars.len() {
        assert(chars@.skip(i as int)[0] == chars@[i as int]);
    }
    i
}

/// `str::split_once` on a character.
pub fn split_once(s: &str, c: char) -> (r: Option<(String, String)>)
    ensures
        match r {
            Some(parts) => cut(s@, c) == Some((parts.0@, parts.1@)),
            None => cut(s@, c) is None,
        },
{
    let x = chars_of(s);
    let at = find_char(&x, c);
    proof {
        first_at_is_least(s@, c);
    }
    if at < x.len() {
        assert(x@.subrange(0, at as int) =~= s@.take(at as int));
        assert(x@.subrange(at + 1, x.len() as int) =~= s@.skip(at + 1));
        Some((text_of(&x, 0, at), text_of(&x, at + 1, x.len())))
    } else {
        None
    }
}

// ---- trimming and case -------------------------------------------------------------------------

/// `s` without its leading white space.
pub open spec fn trimmed_start(s: Seq<char>) -> Seq<char>
    decreases s.len(),
{
    if s.len() > 0 && white_space(s[0]) {
        trimmed_start(s.drop_first())
    } else {
        s
    }
}

/// `s` without its trailing white space.
pub open spec fn trimmed_end(s: Seq<char>) -> Seq<char>
    decreases s.len(),
{
    if s.len() > 0 && white_space(s.last()) {
        trimmed_end(s.drop_last())
    } else {
        s
    }
}

/// `s` without white space at either end.
pub open spec fn trimmed(s: Seq<char>) -> Seq<char> {
    trimmed_end(trimmed_start(s))
}

/// `str::trim`.
pub fn trim(s: &str) -> (r: String)
    ensures
        r@ == trimmed(s@),
{
    let x = chars_of(s);
    let mut from: usize = 0;
    assert(x@.skip(0) =~= x@);
    while from < x.len() && is_white_space(x[from])
        invariant
            from <= x.len(),
            trimmed_start(x@) == trimmed_start(x@.skip(from as int)),
        decreases x.len() - from,
    {
        assert(x@.skip(from as int)[0] == x@[from as int]);
        assert(x@.skip(from as int).drop_first() =~= x@.skip(from + 1));
        from = from + 1;
    }
    if from < x.len() {
        assert(x@.skip(from as int)[0] == x@[from as int]);
    }
    assert(trimmed_start(x@) == x@.skip(from as int));
    let mut to: usize = x.len();
    assert(x@.subrange(from as int, to as int) =~= x@.skip(from as int));
    while to > from && is_white_space(x[to - 1])
        invariant
            from <= to <= x.len(),
            trimmed(x@) == trimmed_end(x@.subrange(from as int, to as int)),
        decreases to,
    {
        assert(x@.subrange(from as int, to as int).last() == x@[to - 1]);
        assert(x@.subrange(from as int, to as int).drop_last() =~= x@.subrange(
            from as int,
            to - 1,
        ));
        to = to - 1;
    }
    if to > from {
        assert(x@.subrange(from as int, to as int).last() == x@[to - 1]);
    }
    text_of(&x, from, to)
}

/// An ASCII capital letter's small letter; any other character itself.
pub open spec fn lower(c: char) -> char {
    if 'A' <= c <= 'Z' {
        ((c as u32) + 32) as char
    } else {
        c
    }
}

/// An ASCII small letter's capital letter; any other character itself.
pub open spec fn upper(c: char) -> char {
    if 'a' <= c <= 'z' {
        ((c as u32) - 32) as char
    } else {
        c
    }
}

/// `s` with its ASCII capitals made small.
pub open spec fn lowered(s: Seq<char>) -> Seq<char> {
    s.map_values(|c: char| lower(c))
}

/// `s` with its small ASCII letters made capital.
pub open spec fn raised(s: Seq<char>) -> Seq<char> {
    s.map_values(|c: char| upper(c))
}

fn lower_char(c: char) -> (r: char)
    ensures
        r == lower(c),
{
    if 'A' <= c && c <= 'Z' {
        ((c as u8) + 32) as char
    } else {
        c
    }
}

fn upper_char(c: char) -> (r: char)
    ensures
        r == upper(c),
{
    if 'a' <= c && c <= 'z' {
        ((c as u8) - 32) as char
    } else {
        c
    }
}

/// `str::to_ascii_lowercase`.
pub fn to_lower(s: &str) -> (r: String)
    ensures
        r@ == lowered(s@),
{
    let x = chars_of(s);
    let mut out = String::new();
    let mut i: usize = 0;
    while i < x.len()
        invariant
            i <= x.len(),
            out@ == lowered(x@.take(i as int)),
        decreases x.len() - i,
    {
        assert(lowered(x@.take(i + 1)) =~= lowered(x@.take(i as int)).push(lower(x@[i as int])));
        out.push(lower_char(x[i]));
        i = i + 1;
    }
    assert(x@.take(x.len() as int) =~= x@);
    out
}

/// `str::to_ascii_uppercase`.
pub fn to_upper(s: &str) -> (r: String)
    ensures
        r@ == raised(s@),
{
    let x = chars_of(s);
    let mut out = String::new();
    let mut i: usize = 0;
    while i < x.len()
        invariant
            i <= x.len(),
            out@ == raised(x@.take(i as int)),
        decreases x.len() - i,
    {
        assert(raised(x@.take(i + 1)) =~= raised(x@.take(i as int)).push(upper(x@[i as int])));
        out.push(upper_char(x[i]));
        i = i + 1;
    }
    assert(x@.take(x.len() as int) =~= x@);
    out
}

// ---- whole numbers -----------------------------------------------------------------------------

/// Whether `c` is an ASCII digit.
pub open spec fn is_digit(c: char) -> bool {
    '0' <= c <= '9'
}

/// The digit for a number below ten.
pub open spec fn digit(d: nat) -> char {
    (48 + d) as char
}

/// `n` in decimal, without leading zeros.
pub open spec fn decimal(n: nat) -> Seq<char>
    decreases n,
{
    if n < 10 {
        seq![digit(n)]
    } else {
        decimal(n / 10).push(digit(n % 10))
    }
}

/// `n` in decimal.
pub fn decimal_text(n: u64) -> (r: String)
    ensures
        r@ == decimal(n as nat),
    decreases n,
{
    let low: u8 = (n % 10) as u8;
    let mut s = if n < 10 {
        String::new()
    } else {
        decimal_text(n / 10)
    };
    s.push((48 + low) as char);
    assert(n < 10 ==> s@ =~= seq![digit(n as nat)]);
    s
}

/// The number that a row of digits stands for.
pub open spec fn number(s: Seq<char>) -> nat
    decreases s.len(),
{
    if s.len() == 0 {
        0
    } else {
        number(s.drop_last()) * 10 + ((s.last() as u32) - 48) as nat
    }
}

/// Whether `s` is a row of one or more digits.
pub open spec fn digits(s: Seq<char>) -> bool {
    s.len() > 0 && forall|i: int| 0 <= i < s.len() ==> is_digit(#[trigger] s[i])
}

/// `s` without one leading plus sign.
pub open spec fn unsigned_body(s: Seq<char>) -> Seq<char> {
    if s.len() > 0 && s[0] == '+' {
        s.drop_first()
    } else {
        s
    }
}

/// The number at most `max` that `s` writes as an optional plus sign and digits.
pub open spec fn unsigned(s: Seq<char>, max: nat) -> Option<nat> {
    let body = unsigned_body(s);
    if digits(body) && number(body) <= max {
        Some(number(body))
    } else {
        None
    }
}

/// The number between `min` and `max` that `s` writes as an optional sign and digits.
pub open spec fn signed(s: Seq<char>, min: int, max: int) -> Option<int> {
    let negative = s.len() > 0 && s[0] == '-';
    let body = if negative {
        s.drop_first()
    } else {
        unsigned_body(s)
    };
    let value = if negative {
        -(number(body) as int)
    } else {
        number(body) as int
    };
    if digits(body) && min <= value <= max {
        Some(value)
    } else {
        None
    }
}

/// More digits never make a number smaller.
proof fn number_grows(s: Seq<char>, n: int)
    requires
        0 <= n <= s.len(),
    ensures
        number(s.take(n)) <= number(s),
    decreases s.len(),
{
    if n == s.len() {
        assert(s.take(n) =~= s);
    } else {
        number_grows(s.drop_last(), n);
        assert(s.drop_last().take(n) =~= s.take(n));
    }
}

/// The number at most `max` that the characters from `from` on write as digits.
fn parse_digits(x: &Vec<char>, from: usize, max: u64) -> (r: Option<u64>)
    requires
        from <= x.len(),
    ensures
        match r {
            Some(v) => digits(x@.skip(from as int)) && v == number(x@.skip(from as int)) && v <= max,
            None => !digits(x@.skip(from as int)) || number(x@.skip(from as int)) > max,
        },
{
    let ghost body = x@.skip(from as int);
    if from == x.len() {
        return None;
    }
    let mut value: u64 = 0;
    let mut i: usize = from;
    assert(body.take(0) =~= Seq::empty());
    while i < x.len()
        invariant
            from <= i <= x.len(),
            body == x@.skip(from as int),
            value == number(body.take(i - from)),
            value <= max,
            forall|j: int| 0 <= j < i - from ==> is_digit(#[trigger] body[j]),
        decreases x.len() - i,
    {
        let c = x[i];
        assert(body[i - from] == c);
        if c < '0' || '9' < c {
            return None;
        }
        let d: u8 = (c as u8) - 48;
        let next: u128 = (value as u128) * 10 + d as u128;
        proof {
            let t = body.take(i + 1 - from);
            assert(t.drop_last() =~= body.take(i - from));
            assert(t.last() == c);
            assert(next == number(t));
            number_grows(body, i + 1 - from);
        }
        if next > max as u128 {
            return None;
        }
        value = next as u64;
        i = i + 1;
    }
    assert(body.take(x.len() - from) =~= body);
    Some(value)
}

/// [`unsigned`], as `str::parse` on an unsigned integer type does it.
pub fn parse_unsigned(s: &str, max: u64) -> (r: Option<u64>)
    ensures
        match r {
            Some(v) => unsigned(s@, max as nat) == Some(v as nat),
            None => unsigned(s@, max as nat) is None,
        },
{
    let x = chars_of(s);
    let from: usize = if x.len() > 0 && x[0] == '+' {
        1
    } else {
        0
    };
    assert(x@.skip(1) =~= x@.drop_first() || x@.len() == 0);
    assert(x@.skip(0) =~= x@);
    parse_digits(&x, from, max)
}

/// [`signed`] over the range of `i32`, as `str::parse::<i32>` does it.
pub fn parse_i32(s: &str) -> (r: Option<i32>)
    ensures
        match r {
            Some(v) => signed(s@, i32::MIN as int, i32::MAX as int) == Some(v as int),
            None => signed(s@, i32::MIN as int, i32::MAX as int) is None,
        },
{
    let x = chars_of(s);
    assert(x@.skip(1) =~= x@.drop_first() || x@.len() == 0);
    assert(x@.skip(0) =~= x@);
    if x.len() > 0 && x[0] == '-' {
        match parse_digits(&x, 1, 2147483648) {
            Some(v) => Some((-(v as i64)) as i32),
            None => None,
        }
    } else {
        let from: usize = if x.len() > 0 && x[0] == '+' {
            1
        } else {
            0
        };
        match parse_digits(&x, from, 2147483647) {
            Some(v) => Some(v as i32),
            None => None,
        }
    }
}

// ---- rows of texts -----------------------------------------------------------------------------

/// What the texts of `v` hold.
pub open spec fn texts(v: Seq<String>) -> Seq<Seq<char>> {
    v.map_values(|s: String| s@)
}

/// `parts` in a row with `sep` between neighbours.
pub open spec fn joined(parts: Seq<Seq<char>>, sep: Seq<char>) -> Seq<char>
    decreases parts.len(),
{
    if parts.len() == 0 {
        Seq::empty()
    } else if parts.len() == 1 {
        parts[0]
    } else {
        joined(parts.drop_last(), sep) + sep + parts.last()
    }
}

/// `[String]::join`.
pub fn join(parts: &Vec<String>, sep: &str) -> (r: String)
    ensures
        r@ == joined(texts(parts@), sep@),
{
    let mut out = String::new();
    let mut i: usize = 0;
    let ghost all = texts(parts@);
    assert(all.take(0) =~= Seq::empty());
    while i < parts.len()
        invariant
            i <= parts.len(),
            all == texts(parts@),
            out@ == joined(all.take(i as int), sep@),
        decreases parts.len() - i,
    {
        proof {
            let next = all.take(i + 1);
            assert(next.drop_last() =~= all.take(i as int));
            assert(next.last() == parts@[i as int]@);
        }
        if i > 0 {
            out.append(sep);
        }
        out.append(&parts[i]);
        assert(i == 0 ==> out@ =~= parts@[0]@);
        i = i + 1;
    }
    assert(all.take(parts.len() as int) =~= all);
    out
}

/// A copy of a row of texts.
pub fn copy_texts(v: &Vec<String>) -> (r: Vec<String>)
    ensures
        texts(r@) == texts(v@),
{
    let mut out: Vec<String> = Vec::new();
    let mut i: usize = 0;
    while i < v.len()
        invariant
            i <= v.len(),
            texts(out@) == texts(v@).take(i as int),
        decreases v.len() - i,
    {
        let ghost prior = out@;
        out.push(v[i].clone());
        assert(texts(out@) =~= texts(prior).push(v@[i as int]@));
        assert(texts(v@).take(i + 1) =~= texts(v@).take(i as int).push(v@[i as int]@));
        i = i + 1;
    }
    assert(texts(v@).take(v.len() as int) =~= texts(v@));
    out
}

/// Whether a row of texts holds `key`.
pub fn contains(v: &Vec<String>, key: &str) -> (r: bool)
    ensures
        r == texts(v@).contains(key@),
{
    let mut i: usize = 0;
    while i < v.len()
        invariant
            i <= v.len(),
            forall|j: int| 0 <= j < i ==> (#[trigger] texts(v@)[j]) != key@,
        decreases v.len() - i,
    {
        assert(texts(v@)[i as int] == v@[i as int]@);
        if same(&v[i], key) {
            return true;
        }
        i = i + 1;
    }
    false
}

/// The parts of `s` between its `c` characters.
pub open spec fn pieces(s: Seq<char>, c: char) -> Seq<Seq<char>>
    decreases s.len(),
{
    let at = first_at(s, c);
    if 0 <= at < s.len() {
        seq![s.take(at)] + pieces(s.skip(at + 1), c)
    } else {
        seq![s]
    }
}

/// `str::split` on a character.
pub fn split(s: &str, c: char) -> (r: Vec<String>)
    ensures
        texts(r@) == pieces(s@, c),
    decreases s@.len(),
{
    let x = chars_of(s);
    let at = find_char(&x, c);
    if at < x.len() {
        let head = text_of(&x, 0, at);
        let rest = text_of(&x, at + 1, x.len());
        assert(x@.subrange(0, at as int) =~= s@.take(at as int));
        assert(x@.subrange(at + 1, x.len() as int) =~= s@.skip(at + 1));
        let mut tail = split(&rest, c);
        let ghost before_insert = tail@;
        tail.insert(0, head);
        assert(texts(tail@) =~= seq![head@] + texts(before_insert));
        tail
    } else {
        let mut out: Vec<String> = Vec::new();
        out.push(s.to_owned());
        assert(texts(out@) =~= seq![s@]);
        out
    }
}

/// The number of characters before the first white space.
pub open spec fn word_len(s: Seq<char>) -> int
    decreases s.len(),
{
    if s.len() == 0 || white_space(s[0]) {
        0
    } else {
        1 + word_len(s.drop_first())
    }
}

/// The words of `s`: the rows of characters between white space.
pub open spec fn words(s: Seq<char>) -> Seq<Seq<char>>
    decreases s.len(),
{
    let n = word_len(s);
    if s.len() == 0 {
        Seq::empty()
    } else if n <= 0 || n > s.len() {
        words(s.drop_first())
    } else {
        seq![s.take(n)] + words(s.skip(n))
    }
}

proof fn word_len_bounds(s: Seq<char>)
    ensures
        0 <= word_len(s) <= s.len(),
        word_len(s) == 0 <==> s.len() == 0 || white_space(s[0]),
    decreases s.len(),
{
    if s.len() > 0 && !white_space(s[0]) {
        word_len_bounds(s.drop_first());
    }
}

/// Whether one of the words of `s` is `word`.
pub fn has_word(s: &str, word: &str) -> (r: bool)
    ensures
        r == words(s@).contains(word@),
{
    let x = chars_of(s);
    let mut i: usize = 0;
    assert(x@.skip(0) =~= x@);
    while i < x.len()
        invariant
            i <= x.len(),
            x@ == s@,
            words(s@).contains(word@) == words(x@.skip(i as int)).contains(word@),
        decreases x.len() - i,
    {
        let ghost rest = x@.skip(i as int);
        assert(rest[0] == x@[i as int]);
        proof {
            word_len_bounds(rest);
        }
        if is_white_space(x[i]) {
            assert(rest.drop_first() =~= x@.skip(i + 1));
            i = i + 1;
        } else {
            let mut j: usize = i + 1;
            assert(rest.drop_first() =~= x@.skip(i + 1));
            while j < x.len() && !is_white_space(x[j])
                invariant
                    i < j <= x.len(),
                    rest == x@.skip(i as int),
                    word_len(rest) == (j - i) + word_len(x@.skip(j as int)),
                decreases x.len() - j,
            {
                assert(x@.skip(j as int)[0] == x@[j as int]);
                assert(x@.skip(j as int).drop_first() =~= x@.skip(j + 1));
                j = j + 1;
            }
            if j < x.len() {
                assert(x@.skip(j as int)[0] == x@[j as int]);
            }
            let w = text_of(&x, i, j);
            proof {
                let n = (j - i) as int;
                assert(word_len(rest) == n);
                assert(rest.take(n) =~= w@);
                assert(rest.skip(n) =~= x@.skip(j as int));
                let all = words(rest);
                let tail = words(x@.skip(j as int));
                assert(all =~= seq![w@] + tail);
                if tail.contains(word@) {
                    let k = choose|k: int| 0 <= k < tail.len() && tail[k] == word@;
                    assert(all[k + 1] == word@);
                }
                if all.contains(word@) && word@ != w@ {
                    let k = choose|k: int| 0 <= k < all.len() && all[k] == word@;
                    assert(tail[k - 1] == word@);
                }
                assert(all[0] == w@);
            }
            if same(&w, word) {
                return true;
            }
            i = j;
        }
    }
    assert(x@.skip(x.len() as int) =~= Seq::empty());
    false
}

/// The texts of `s` that are not in `t`.
pub open spec fn minus(s: Seq<Seq<char>>, t: Seq<Seq<char>>) -> Seq<Seq<char>>
    decreases s.len(),
{
    if s.len() == 0 {
        Seq::empty()
    } else if t.contains(s.last()) {
        minus(s.drop_last(), t)
    } else {
        minus(s.drop_last(), t).push(s.last())
    }
}

/// What is left of `s` without `t` is what is in `s` and not in `t`.
pub proof fn minus_contains(s: Seq<Seq<char>>, t: Seq<Seq<char>>, k: Seq<char>)
    ensures
        minus(s, t).contains(k) == (s.contains(k) && !t.contains(k)),
    decreases s.len(),
{
    if s.len() > 0 {
        let rest = s.drop_last();
        minus_contains(rest, t, k);
        assert(s =~= rest.push(s.last()));
        push_contains(rest, s.last(), k);
        if !t.contains(s.last()) {
            push_contains(minus(rest, t), s.last(), k);
        }
    }
}

/// What a row holds with one more item at its end.
pub proof fn push_contains(s: Seq<Seq<char>>, x: Seq<char>, k: Seq<char>)
    ensures
        s.push(x).contains(k) == (s.contains(k) || k == x),
{
    let n = s.push(x);
    if s.contains(k) {
        let i = choose|i: int| 0 <= i < s.len() && s[i] == k;
        assert(n[i] == k);
    }
    assert(n[s.len() as int] == x);
    if n.contains(k) && k != x {
        let i = choose|i: int| 0 <= i < n.len() && n[i] == k;
        assert(s[i] == k);
    }
}

/// The texts of `s` that are not in `t`.
pub fn difference(s: &Vec<String>, t: &Vec<String>) -> (r: Vec<String>)
    ensures
        texts(r@) == minus(texts(s@), texts(t@)),
{
    let mut out: Vec<String> = Vec::new();
    let mut i: usize = 0;
    let ghost all = texts(s@);
    assert(texts(out@) =~= minus(all.take(0), texts(t@)));
    while i < s.len()
        invariant
            i <= s.len(),
            all == texts(s@),
            texts(out@) == minus(all.take(i as int), texts(t@)),
        decreases s.len() - i,
    {
        let ghost next = all.take(i + 1);
        let ghost prior = out@;
        assert(next.drop_last() =~= all.take(i as int));
        assert(next.last() == s@[i as int]@);
        if !contains(t, &s[i]) {
            out.push(s[i].clone());
            assert(texts(out@) =~= texts(prior).push(s@[i as int]@));
        }
        i = i + 1;
    }
    assert(all.take(s.len() as int) =~= all);
    out
}

/// `s` with each text at its first place only.
pub open spec fn firsts(s: Seq<Seq<char>>) -> Seq<Seq<char>>
    decreases s.len(),
{
    if s.len() == 0 {
        Seq::empty()
    } else {
        let rest = firsts(s.drop_last());
        if rest.contains(s.last()) {
            rest
        } else {
            rest.push(s.last())
        }
    }
}

/// Dropping repetitions keeps what a row holds, and leaves no text twice.
pub proof fn firsts_hold_the_same(s: Seq<Seq<char>>)
    ensures
        forall|k: Seq<char>| #[trigger] firsts(s).contains(k) == s.contains(k),
        firsts(s).no_duplicates(),
    decreases s.len(),
{
    if s.len() > 0 {
        let rest = s.drop_last();
        firsts_hold_the_same(rest);
        assert(s =~= rest.push(s.last()));
        assert forall|k: Seq<char>| #[trigger] firsts(s).contains(k) == s.contains(k) by {
            push_contains(rest, s.last(), k);
            push_contains(firsts(rest), s.last(), k);
            assert(firsts(rest).contains(k) == rest.contains(k));
            assert(firsts(rest).contains(s.last()) == rest.contains(s.last()));
        }
    }
}

/// `v` with each text at its first place only.
pub fn without_repeats(v: &Vec<String>) -> (r: Vec<String>)
    ensures
        texts(r@) == firsts(texts(v@)),
{
    let mut out: Vec<String> = Vec::new();
    let ghost all = texts(v@);
    let mut i: usize = 0;
    assert(texts(out@) =~= firsts(all.take(0)));
    while i < v.len()
        invariant
            i <= v.len(),
            all == texts(v@),
            texts(out@) == firsts(all.take(i as int)),
        decreases v.len() - i,
    {
        let ghost next = all.take(i + 1);
        let ghost prior = texts(out@);
        assert(next.drop_last() =~= all.take(i as int));
        assert(next.last() == v@[i as int]@);
        if !contains(&out, &v[i]) {
            out.push(v[i].clone());
            assert(texts(out@) =~= prior.push(v@[i as int]@));
        }
        i = i + 1;
    }
    assert(all.take(v.len() as int) =~= all);
    out
}

/// What a row of pairs holds.
pub open spec fn pairs(v: Seq<(String, String)>) -> Seq<(Seq<char>, Seq<char>)> {
    v.map_values(|p: (String, String)| (p.0@, p.1@))
}

/// Whether two rows hold the same texts in the same order.
pub fn same_texts(a: &Vec<String>, b: &Vec<String>) -> (r: bool)
    ensures
        r == (texts(a@) == texts(b@)),
{
    if a.len() != b.len() {
        assert(texts(a@).len() != texts(b@).len());
        return false;
    }
    let mut i: usize = 0;
    while i < a.len()
        invariant
            i <= a.len(),
            a.len() == b.len(),
            forall|k: int| 0 <= k < i ==> (#[trigger] a@[k])@ == b@[k]@,
        decreases a.len() - i,
    {
        if !same(&a[i], &b[i]) {
            assert(texts(a@)[i as int] != texts(b@)[i as int]);
            return false;
        }
        i = i + 1;
    }
    assert(texts(a@) =~= texts(b@));
    true
}

} // verus!
