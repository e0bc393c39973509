//! How texts are trimmed, cut, counted, coded and read.

use vstd::prelude::*;

use crate::base64;
use crate::concurrency;
use crate::duration;
use crate::duration::{Duration, Reading, Tally};
use crate::keyed;
use crate::outside;
use crate::sources;
use crate::sources::Inputs;
use crate::text;

verus! {

// ---- trimming and letters ----------------------------------------------------------------------

proof fn start_is_cut(s: Seq<char>) -> (k: int)
    ensures
        0 <= k <= s.len(),
        text::trimmed_start(s) == s.skip(k),
        forall|i: int| 0 <= i < k ==> text::white_space(#[trigger] s[i]),
        k < s.len() ==> !text::white_space(s[k]),
    decreases s.len(),
{
    if s.len() > 0 && text::white_space(s[0]) {
        let rest = s.drop_first();
        let k = start_is_cut(rest);
        assert(rest.skip(k) =~= s.skip(k + 1));
        assert forall|i: int| 0 <= i < k + 1 implies text::white_space(#[trigger] s[i]) by {
            if i > 0 {
                assert(rest[i - 1] == s[i]);
            }
        }
        if k < rest.len() {
            assert(rest[k] == s[k + 1]);
        }
        k + 1
    } else {
        assert(s.skip(0) =~= s);
        0
    }
}

proof fn end_is_cut(s: Seq<char>) -> (k: int)
    ensures
        0 <= k <= s.len(),
        text::trimmed_end(s) == s.take(k),
        forall|i: int| k <= i < s.len() ==> text::white_space(#[trigger] s[i]),
        k > 0 ==> !text::white_space(s[k - 1]),
    decreases s.len(),
{
    if s.len() > 0 && text::white_space(s.last()) {
        let rest = s.drop_last();
        let k = end_is_cut(rest);
        assert(rest.take(k) =~= s.take(k));
        assert forall|i: int| k <= i < s.len() implies text::white_space(#[trigger] s[i]) by {
            if i < rest.len() {
                assert(rest[i] == s[i]);
            }
        }
        if k > 0 {
            assert(rest[k - 1] == s[k - 1]);
        }
        k
    } else {
        assert(s.take(s.len() as int) =~= s);
        s.len() as int
    }
}

/// Trimming takes white space off both ends and nothing else: what is left is a part of the text,
/// all around it is white, and it neither begins nor ends white.
pub proof fn trimming_takes_only_white_ends(s: Seq<char>) -> (at: (int, int))
    ensures
        0 <= at.0 <= at.1 <= s.len(),
        text::trimmed(s) == s.subrange(at.0, at.1),
        forall|i: int|
            (0 <= i < at.0 || at.1 <= i < s.len()) ==> text::white_space(#[trigger] s[i]),
        text::trimmed(s).len() > 0 ==> !text::white_space(text::trimmed(s)[0])
            && !text::white_space(text::trimmed(s).last()),
{
    let a = start_is_cut(s);
    let rest = s.skip(a);
    let b = end_is_cut(rest);
    assert(rest.take(b) =~= s.subrange(a, a + b));
    assert forall|i: int| (0 <= i < a || a + b <= i < s.len()) implies text::white_space(
        #[trigger] s[i],
    ) by {
        if i >= a + b {
            assert(rest[i - a] == s[i]);
        }
    }
    if text::trimmed(s).len() > 0 {
        assert(rest[0] == s[a]);
        assert(text::trimmed(s)[0] == rest[0]);
        assert(text::trimmed(s).last() == rest[b - 1]);
    }
    (a, a + b)
}

/// A text without white ends is left as it is; so trimming twice is trimming once.
pub proof fn trimming_twice_is_trimming_once(s: Seq<char>)
    ensures
        s.len() == 0 || (!text::white_space(s[0]) && !text::white_space(s.last()))
            ==> text::trimmed(s) == s,
        text::trimmed(text::trimmed(s)) == text::trimmed(s),
{
    let _ = trimming_takes_only_white_ends(s);
}

/// Lowering and raising change the case of the plain letters, each in its place, and nothing else.
pub proof fn case_changes_letters_in_place(s: Seq<char>, i: int)
    requires
        0 <= i < s.len(),
    ensures
        text::lowered(s).len() == s.len() && text::raised(s).len() == s.len(),
        'A' <= s[i] <= 'Z' ==> text::lowered(s)[i] as int == s[i] as int + 32,
        !('A' <= s[i] <= 'Z') ==> text::lowered(s)[i] == s[i],
        'a' <= s[i] <= 'z' ==> text::raised(s)[i] as int == s[i] as int - 32,
        !('a' <= s[i] <= 'z') ==> text::raised(s)[i] == s[i],
{
}

/// A text begins and ends with the texts it is put together from, and with no text that differs in
/// a place.
pub proof fn a_whole_begins_and_ends_with_its_parts(a: Seq<char>, b: Seq<char>, i: int)
    ensures
        text::begins(a + b, a),
        text::finishes(a + b, b),
        text::begins(a, b) ==> b.len() <= a.len() && (0 <= i < b.len() ==> a[i] == b[i]),
        text::finishes(a, b) ==> b.len() <= a.len() && (0 <= i < b.len() ==> a[a.len() - b.len()
            + i] == b[i]),
{
    assert((a + b).take(a.len() as int) =~= a);
    assert((a + b).skip((a + b).len() - b.len()) =~= b);
    if text::begins(a, b) && 0 <= i < b.len() {
        assert(a.take(b.len() as int)[i] == a[i]);
    }
    if text::finishes(a, b) && 0 <= i < b.len() {
        assert(a.skip(a.len() - b.len())[i] == a[a.len() - b.len() + i]);
    }
}

/// Texts stand in the order of their first difference; a text stands before every longer one that
/// begins with it.
pub proof fn texts_stand_by_their_first_difference(
    head: Seq<char>,
    c: char,
    d: char,
    a: Seq<char>,
    b: Seq<char>,
)
    ensures
        c < d ==> text::before(head + seq![c] + a, head + seq![d] + b),
        a.len() > 0 ==> text::before(head, head + a),
    decreases head.len(),
{
    let x = head + seq![c] + a;
    let y = head + seq![d] + b;
    let z = head + a;
    if head.len() > 0 {
        let rest = head.drop_first();
        texts_stand_by_their_first_difference(rest, c, d, a, b);
        assert(x.drop_first() =~= rest + seq![c] + a);
        assert(y.drop_first() =~= rest + seq![d] + b);
        assert(z.drop_first() =~= rest + a);
        assert(x[0] == head[0] && y[0] == head[0] && z[0] == head[0]);
    } else {
        assert(x[0] == c && y[0] == d);
    }
}

// ---- numbers -----------------------------------------------------------------------------------

/// A number is written in digits, without a leading zero, and reads back as the number.
pub proof fn a_number_reads_back(n: nat)
    ensures
        text::digits(text::decimal(n)),
        text::number(text::decimal(n)) == n,
        text::decimal(n)[0] == '0' <==> n == 0,
    decreases n,
{
    let s = text::decimal(n);
    if n >= 10 {
        a_number_reads_back(n / 10);
        let head = text::decimal(n / 10);
        assert(s.drop_last() =~= head);
        assert(s[0] == head[0]);
        assert(n == (n / 10) * 10 + n % 10);
        assert forall|i: int| 0 <= i < s.len() implies text::is_digit(#[trigger] s[i]) by {
            if i < head.len() {
                assert(head[i] == s[i]);
            }
        }
    } else {
        assert(s.drop_last() =~= Seq::<char>::empty());
        assert(text::number(Seq::<char>::empty()) == 0);
    }
}

/// A digit more makes a number ten times as large and adds the digit.
pub proof fn a_digit_more_is_ten_times_more(s: Seq<char>, c: char)
    requires
        '0' <= c <= '9',
    ensures
        text::number(s.push(c)) == text::number(s) * 10 + (c as int - 48),
        text::number(Seq::<char>::empty()) == 0,
{
    assert(s.push(c).drop_last() =~= s);
}

/// A count is read from its digits, with or without a plus sign, exactly where it is no larger than
/// allowed; a text that holds anything but digits is no count.
pub proof fn a_count_is_read_from_its_digits(n: nat, max: nat, s: Seq<char>, i: int)
    ensures
        n <= max ==> text::unsigned(text::decimal(n), max) == Some(n),
        n <= max ==> text::unsigned(seq!['+'] + text::decimal(n), max) == Some(n),
        n > max ==> text::unsigned(text::decimal(n), max) is None,
        s.len() == 0 ==> text::unsigned(s, max) is None,
        0 <= i < s.len() && !('0' <= s[i] <= '9') && !(i == 0 && s[i] == '+') ==> text::unsigned(
            s,
            max,
        ) is None,
        text::unsigned(s, max) matches Some(v) ==> v <= max,
{
    a_number_reads_back(n);
    let d = text::decimal(n);
    let p = seq!['+'] + d;
    assert(p.drop_first() =~= d);
    assert(p[0] == '+');
    assert(text::is_digit(d[0]));
    if 0 <= i < s.len() && !('0' <= s[i] <= '9') && !(i == 0 && s[i] == '+') {
        if s[0] == '+' {
            assert(s.drop_first()[i - 1] == s[i]);
        }
    }
}

/// A signed number is read from its digits, a minus sign making it negative.
pub proof fn a_signed_number_is_read_with_its_sign(n: nat, min: int, max: int)
    requires
        min <= 0 <= max,
    ensures
        n <= max ==> text::signed(text::decimal(n), min, max) == Some(n as int),
        -n >= min ==> text::signed(seq!['-'] + text::decimal(n), min, max) == Some(-(n as int)),
        n > max ==> text::signed(text::decimal(n), min, max) is None,
        -n < min ==> text::signed(seq!['-'] + text::decimal(n), min, max) is None,
{
    a_number_reads_back(n);
    let d = text::decimal(n);
    let p = seq!['-'] + d;
    assert(p.drop_first() =~= d);
    assert(p[0] == '-');
    assert(text::is_digit(d[0]));
}

// ---- cutting and joining -----------------------------------------------------------------------

/// A text is cut at the first of the character: what stands before and what stands behind; a text
/// without it is not cut.
pub proof fn a_text_is_cut_at_the_first(a: Seq<char>, b: Seq<char>, c: char)
    requires
        !a.contains(c),
    ensures
        text::cut(a + seq![c] + b, c) == Some((a, b)),
        text::cut(a, c) is None,
{
    let s = a + seq![c] + b;
    text::first_at_is_least(s, c);
    text::first_at_is_least(a, c);
    let at = text::first_at(s, c);
    assert(s[a.len() as int] == c);
    if at < a.len() {
        assert(a[at] == s[at]);
    }
    assert(at == a.len());
    assert(s.take(at) =~= a);
    assert(s.skip(at + 1) =~= b);
}

/// A text falls into the pieces between the separators, each without a separator; joined by the
/// separator they are the text again.
pub proof fn pieces_join_to_the_text(s: Seq<char>, c: char)
    ensures
        text::joined(text::pieces(s, c), seq![c]) == s,
        text::pieces(s, c).len() > 0,
        forall|i: int|
            0 <= i < text::pieces(s, c).len() ==> !(#[trigger] text::pieces(s, c)[i]).contains(c),
    decreases s.len(),
{
    text::first_at_is_least(s, c);
    let at = text::first_at(s, c);
    let p = text::pieces(s, c);
    if 0 <= at < s.len() {
        let rest = s.skip(at + 1);
        pieces_join_to_the_text(rest, c);
        let q = text::pieces(rest, c);
        joined_front(s.take(at), q, seq![c]);
        assert(s.take(at) + seq![c] + rest =~= s);
        assert forall|i: int| 0 <= i < p.len() implies !(#[trigger] p[i]).contains(c) by {
            if i > 0 {
                assert(p[i] == q[i - 1]);
            }
        }
    } else {
        assert(!s.contains(c));
    }
}

proof fn joined_front(first: Seq<char>, rest: Seq<Seq<char>>, sep: Seq<char>)
    requires
        rest.len() > 0,
    ensures
        text::joined(seq![first] + rest, sep) == first + sep + text::joined(rest, sep),
    decreases rest.len(),
{
    let all = seq![first] + rest;
    if rest.len() == 1 {
        assert(all.drop_last() =~= seq![first]);
        assert(text::joined(seq![first], sep) == first);
        assert(all.last() == rest[0]);
    } else {
        joined_front(first, rest.drop_last(), sep);
        assert(all.drop_last() =~= seq![first] + rest.drop_last());
        assert(all.last() == rest.last());
        assert(first + sep + text::joined(rest.drop_last(), sep) + sep + rest.last() =~= first + sep
            + (text::joined(rest.drop_last(), sep) + sep + rest.last()));
    }
}

/// A part more is joined behind the others with one separator between.
pub proof fn a_part_more_is_joined_behind(parts: Seq<Seq<char>>, part: Seq<char>, sep: Seq<char>)
    ensures
        parts.len() == 0 ==> text::joined(parts.push(part), sep) == part,
        parts.len() > 0 ==> text::joined(parts.push(part), sep) == text::joined(parts, sep) + sep
            + part,
        text::joined(Seq::<Seq<char>>::empty(), sep).len() == 0,
{
    assert(parts.push(part).drop_last() =~= parts);
}

proof fn word_is_measured(s: Seq<char>)
    ensures
        0 <= text::word_len(s) <= s.len(),
        forall|i: int| 0 <= i < text::word_len(s) ==> !text::white_space(#[trigger] s[i]),
        text::word_len(s) < s.len() ==> text::white_space(s[text::word_len(s)]),
    decreases s.len(),
{
    if s.len() > 0 && !text::white_space(s[0]) {
        let rest = s.drop_first();
        word_is_measured(rest);
        let n = text::word_len(rest);
        assert forall|i: int| 0 <= i < n + 1 implies !text::white_space(#[trigger] s[i]) by {
            if i > 0 {
                assert(rest[i - 1] == s[i]);
            }
        }
        if n < rest.len() {
            assert(rest[n] == s[n + 1]);
        }
    }
}

/// The words of a text are what stands between its white spaces: a text without any is one word, and
/// the words on both sides of a white space are the words of the whole.
pub proof fn words_stand_between_white_space(a: Seq<char>, c: char, b: Seq<char>)
    requires
        text::white_space(c),
    ensures
        text::words(a + seq![c] + b) == text::words(a) + text::words(b),
        a.len() > 0 && (forall|i: int| 0 <= i < a.len() ==> !text::white_space(#[trigger] a[i]))
            ==> text::words(a) == seq![a],
        text::words(Seq::<char>::empty()).len() == 0,
    decreases a.len(),
{
    let s = a + seq![c] + b;
    word_is_measured(a);
    word_is_measured(s);
    let n = text::word_len(a);
    assert(s[a.len() as int] == c);
    if a.len() == 0 {
        assert(s[0] == c);
        assert(s.drop_first() =~= b);
        assert(text::words(a) + text::words(b) =~= text::words(b));
    } else if n == 0 {
        assert(s[0] == a[0]);
        assert(s.drop_first() =~= a.drop_first() + seq![c] + b);
        words_stand_between_white_space(a.drop_first(), c, b);
    } else {
        let m = text::word_len(s);
        assert(m == n) by {
            if m < n {
                assert(s[m] == a[m]);
            }
            if n < m {
                if n < a.len() {
                    assert(s[n] == a[n]);
                } else {
                    assert(s[n] == c);
                }
            }
        }
        assert(s.take(n) =~= a.take(n));
        assert(s.skip(n) =~= a.skip(n) + seq![c] + b);
        words_stand_between_white_space(a.skip(n), c, b);
        assert(seq![a.take(n)] + (text::words(a.skip(n)) + text::words(b)) =~= seq![a.take(n)]
            + text::words(a.skip(n)) + text::words(b));
        if forall|i: int| 0 <= i < a.len() ==> !text::white_space(#[trigger] a[i]) {
            assert(n == a.len());
            assert(a.skip(n) =~= Seq::<char>::empty());
            assert(a.take(n) =~= a);
            assert(text::words(Seq::<char>::empty()) =~= Seq::<Seq<char>>::empty());
            assert(seq![a] + Seq::<Seq<char>>::empty() =~= seq![a]);
        }
    }
}

/// Taking members out of a row leaves the others in their order.
pub proof fn what_is_left_keeps_its_order(
    a: Seq<Seq<char>>,
    b: Seq<Seq<char>>,
    p: Seq<char>,
    t: Seq<Seq<char>>,
)
    ensures
        text::minus(a + b, t) == text::minus(a, t) + text::minus(b, t),
        text::minus(seq![p], t) == if t.contains(p) {
            Seq::empty()
        } else {
            seq![p]
        },
    decreases b.len(),
{
    let none = Seq::<Seq<char>>::empty();
    assert(seq![p].drop_last() =~= none);
    assert(seq![p].last() == p);
    assert(text::minus(none, t) =~= Seq::<Seq<char>>::empty());
    assert(Seq::<Seq<char>>::empty().push(p) =~= seq![p]);
    if b.len() == 0 {
        assert(a + b =~= a);
        assert(text::minus(a, t) + text::minus(b, t) =~= text::minus(a, t));
    } else {
        what_is_left_keeps_its_order(a, b.drop_last(), p, t);
        assert((a + b).drop_last() =~= a + b.drop_last());
        assert((a + b).last() == b.last());
        let x = text::minus(a, t);
        let y = text::minus(b.drop_last(), t);
        assert((x + y).push(b.last()) =~= x + y.push(b.last()));
    }
}

/// Of repeated texts the first stays: one more is added at the end exactly where it is new.
pub proof fn only_a_new_text_is_added(s: Seq<Seq<char>>, x: Seq<char>)
    ensures
        s.contains(x) ==> text::firsts(s.push(x)) == text::firsts(s),
        !s.contains(x) ==> text::firsts(s.push(x)) == text::firsts(s) + seq![x],
        text::firsts(Seq::<Seq<char>>::empty()).len() == 0,
{
    assert(s.push(x).drop_last() =~= s);
    text::firsts_hold_the_same(s);
    assert(text::firsts(s).contains(x) == s.contains(x));
}

// ---- codes -------------------------------------------------------------------------------------

/// The alphabet of the code: the capitals, the small letters, the digits, plus and slash, in that
/// order.
pub proof fn the_code_has_its_alphabet(v: int)
    requires
        0 <= v < 64,
    ensures
        v < 26 ==> base64::symbol(v) as int == 'A' as int + v,
        26 <= v < 52 ==> base64::symbol(v) as int == 'a' as int + v - 26,
        52 <= v < 62 ==> base64::symbol(v) as int == '0' as int + v - 52,
        v == 62 ==> base64::symbol(v) == '+',
        v == 63 ==> base64::symbol(v) == '/',
{
}

/// Every three bytes are coded as four characters; one or two that are left are filled up with the
/// sign that stands for nothing.
pub proof fn three_bytes_take_four_characters(b: Seq<u8>)
    ensures
        base64::encoded(b).len() == 4 * ((b.len() + 2) / 3),
        b.len() % 3 == 1 ==> base64::encoded(b)[base64::encoded(b).len() - 2] == '='
            && base64::encoded(b).last() == '=',
        b.len() % 3 == 2 ==> base64::encoded(b).last() == '=' && base64::encoded(b)[
            base64::encoded(b).len() - 2
        ] != '=',
    decreases b.len(),
{
    if b.len() >= 3 {
        three_bytes_take_four_characters(b.skip(3));
    }
}

/// White space in a code stands for nothing, and what follows the filling sign is not read.
pub proof fn blanks_and_filling_are_not_read(c: char, rest: Seq<char>)
    ensures
        c == ' ' || c == '\t' || c == '\n' || c == '\r' ==> base64::values(seq![c] + rest)
            == base64::values(rest),
        c == '=' ==> base64::values(seq![c] + rest) == Some(Seq::<u8>::empty()),
        c == '-' || c == '_' || c == '!' || c == '%' ==> base64::values(seq![c] + rest) is None,
{
    assert((seq![c] + rest).drop_first() =~= rest);
}

/// The text of an id has its hyphens in their places.
pub proof fn an_id_has_its_hyphens(v: u128)
    ensures
        outside::uuid_text(v).len() == 36,
        outside::uuid_text(v)[8] == '-' && outside::uuid_text(v)[13] == '-' && outside::uuid_text(
            v,
        )[18] == '-' && outside::uuid_text(v)[23] == '-',
        outside::uuid_text(v)[35] == outside::hex((v % 16) as nat),
        outside::uuid_text(v)[34] == outside::hex(((v / 16) % 16) as nat),
{
    reveal_strlit("-");
    hex_is_counted(v as nat, 32);
    let h = outside::hex_digits(v as nat, 32);
    assert(h[31] == outside::hex(v as nat % 16));
    let g = outside::hex_digits(v as nat / 16, 31);
    hex_is_counted(v as nat / 16, 31);
    assert(h[30] == g[30]);
    assert(g[30] == outside::hex((v as nat / 16) % 16));
}

proof fn hex_is_counted(v: nat, n: nat)
    ensures
        outside::hex_digits(v, n).len() == n,
        n > 0 ==> outside::hex_digits(v, n).drop_last() == outside::hex_digits(
            v / 16,
            (n - 1) as nat,
        ),
    decreases n,
{
    if n > 0 {
        hex_is_counted(v / 16, (n - 1) as nat);
        assert(outside::hex_digits(v, n).drop_last() =~= outside::hex_digits(
            v / 16,
            (n - 1) as nat,
        ));
    }
}

/// The hexadecimal digits are the ten digits and the first six small letters.
pub proof fn hexadecimal_digits_are_small(d: nat)
    requires
        d < 16,
    ensures
        d < 10 ==> outside::hex(d) as int == '0' as int + d,
        d >= 10 ==> outside::hex(d) as int == 'a' as int + d - 10,
{
}

// ---- durations ---------------------------------------------------------------------------------

/// Plain digits are a duration in seconds; nothing at all is none.
pub proof fn plain_digits_are_seconds(n: nat, raw: Seq<char>, read: Reading)
    ensures
        n <= u64::MAX && text::trimmed(raw) == text::decimal(n) ==> duration::duration(raw, read)
            == Ok::<Duration, Seq<char>>(Duration::of_secs(n as u64)),
        text::trimmed(raw).len() == 0 ==> duration::duration(raw, read) is Err,
{
    if text::trimmed(raw) == text::decimal(n) {
        a_count_is_read_from_its_digits(n, u64::MAX as nat, raw, 0);
        a_number_reads_back(n);
    }
}

/// Days stand before the T, hours, minutes and seconds behind it; whatever is written is read in
/// milliseconds of its unit and added up.
pub proof fn each_unit_has_its_length(
    s: Seq<char>,
    c: char,
    in_time: bool,
    start: u64,
    read: Reading,
    t: Tally,
)
    requires
        duration::tally(s, in_time, start, read) == Ok::<Tally, Seq<char>>(t),
    ensures
        ({
            let next = duration::tally(s.push(c), in_time, start, read);
            let length: u64 = if in_time && c == 'H' {
                3_600_000
            } else if in_time && c == 'M' {
                60_000
            } else if in_time && c == 'S' {
                1_000
            } else if !in_time && c == 'D' {
                86_400_000
            } else {
                0
            };
            if '0' <= c <= '9' || c == '.' {
                next matches Ok(n) && n.total == t.total && n.number == t.number.push(c)
            } else if length == 0 {
                next is Err
            } else {
                match read(t.number, length) {
                    None => next is Err,
                    Some(ms) => next matches Ok(n) && n.number.len() == 0 && (t.total + ms
                        <= u64::MAX ==> n.total == t.total + ms),
                }
            }
        }),
        duration::tally(Seq::<char>::empty(), in_time, start, read) matches Ok(n) && n.total
            == start && n.number.len() == 0,
{
    assert(s.push(c).drop_last() =~= s);
}

/// A sum that is too large wraps round.
pub proof fn a_sum_wraps_round(a: u64, b: u64)
    ensures
        a + b <= u64::MAX ==> duration::wrapped(a, b) == a + b,
        a + b > u64::MAX ==> duration::wrapped(a, b) == a + b - 18_446_744_073_709_551_616,
{
}

/// A part is complete exactly where no number is left without its unit.
pub proof fn a_number_needs_its_unit(s: Seq<char>, in_time: bool, start: u64, read: Reading)
    ensures
        match duration::tally(s, in_time, start, read) {
            Err(e) => duration::part(s, in_time, start, read) == Err::<u64, Seq<char>>(e),
            Ok(t) => if t.number.len() == 0 {
                duration::part(s, in_time, start, read) == Ok::<u64, Seq<char>>(t.total)
            } else {
                duration::part(s, in_time, start, read) is Err
            },
        },
{
}

/// A duration that begins with a P is the sum of its days and of what stands behind its T; it needs
/// at least one part, and a T needs something behind it.
pub proof fn a_duration_is_the_sum_of_its_parts(
    raw: Seq<char>,
    date: Seq<char>,
    time: Seq<char>,
    read: Reading,
)
    requires
        !date.contains('T'),
        text::unsigned(text::trimmed(raw), u64::MAX as nat) is None,
    ensures
        text::raised(text::trimmed(raw)) == seq!['P'] + date
            && date.len() > 0 ==> match duration::part(
            date,
            false,
            0,
            read,
        ) {
            Ok(ms) => duration::duration(raw, read) == Ok::<Duration, Seq<char>>(
                Duration::of_millis(ms),
            ),
            Err(_) => duration::duration(raw, read) is Err,
        },
        text::raised(text::trimmed(raw)) == seq!['P'] + date + seq!['T'] + time && time.len() > 0
            ==> match duration::part(date, false, 0, read) {
            Ok(ms) => match duration::part(time, true, ms, read) {
                Ok(all) => duration::duration(raw, read) == Ok::<Duration, Seq<char>>(
                    Duration::of_millis(all),
                ),
                Err(_) => duration::duration(raw, read) is Err,
            },
            Err(_) => duration::duration(raw, read) is Err,
        },
        text::raised(text::trimmed(raw)) == seq!['P'] ==> duration::duration(raw, read) is Err,
        text::raised(text::trimmed(raw)) == seq!['P'] + date + seq!['T'] ==> duration::duration(
            raw,
            read,
        ) is Err,
        text::trimmed(raw).len() > 0 && text::raised(text::trimmed(raw))[0] != 'P'
            ==> duration::duration(raw, read) is Err,
{
    let upper = text::raised(text::trimmed(raw));
    a_text_is_cut_at_the_first(date, time, 'T');
    a_text_is_cut_at_the_first(date, Seq::empty(), 'T');
    a_text_is_cut_at_the_first(Seq::empty(), Seq::empty(), 'T');
    assert((seq!['P'] + date).drop_first() =~= date);
    assert((seq!['P'] + date + seq!['T'] + time).drop_first() =~= date + seq!['T'] + time);
    assert((seq!['P'] + date + seq!['T']).drop_first() =~= date + seq!['T'] + Seq::<char>::empty());
    assert(seq!['P'].drop_first() =~= Seq::<char>::empty());
    assert((seq!['P'] + date)[0] == 'P');
    assert((seq!['P'] + date + seq!['T'] + time)[0] == 'P');
    assert((seq!['P'] + date + seq!['T'])[0] == 'P');
}

// ---- settings ----------------------------------------------------------------------------------

/// A setting is the environment's where it has one, else the file's, else none; what is found is
/// resolved, and a reference that does not resolve is refused under the setting's key.
pub proof fn a_setting_is_resolved_where_it_is_found(m: Inputs, key: Seq<char>, name: Seq<char>)
    ensures
        ({
            let found = match (m.env)(name) {
                Some(v) => Some(v),
                None => keyed::lookup(m.file, key),
            };
            match found {
                None => m.setting(key, name) == Ok::<Option<Seq<char>>, Seq<char>>(None),
                Some(raw) => match (m.resolve)(raw) {
                    Ok(v) => m.setting(key, name) == Ok::<Option<Seq<char>>, Seq<char>>(Some(v)),
                    Err(e) => m.setting(key, name) matches Err(w) && w == "config key '"@ + key
                        + "': "@ + e,
                },
            }
        }),
{
}

/// A duration setting is what its text denotes, or the default where there is none.
pub proof fn a_duration_setting_has_a_default(
    m: Inputs,
    key: Seq<char>,
    name: Seq<char>,
    default: Duration,
)
    ensures
        match m.setting(key, name) {
            Ok(None) => m.duration_setting(key, name, default) == Ok::<Duration, Seq<char>>(
                default,
            ),
            Ok(Some(raw)) => match duration::duration(raw, m.read) {
                Ok(d) => m.duration_setting(key, name, default) == Ok::<Duration, Seq<char>>(d),
                Err(_) => m.duration_setting(key, name, default) is Err,
            },
            Err(e) => m.duration_setting(key, name, default) == Err::<Duration, Seq<char>>(e),
        },
{
}

/// A number setting is the number that its trimmed text denotes; outside its bounds it is refused
/// with the complaint.
pub proof fn a_number_setting_keeps_its_bounds(
    m: Inputs,
    key: Seq<char>,
    name: Seq<char>,
    min: nat,
    max: nat,
    complaint: Seq<char>,
    n: nat,
    raw: Seq<char>,
)
    requires
        m.setting(key, name) == Ok::<Option<Seq<char>>, Seq<char>>(Some(raw)),
        text::trimmed(raw) == text::decimal(n),
    ensures
        min <= n <= max ==> m.number_setting(key, name, min, max, complaint) == Ok::<
            Option<nat>,
            Seq<char>,
        >(Some(n)),
        n < min || n > max ==> m.number_setting(key, name, min, max, complaint) == Err::<
            Option<nat>,
            Seq<char>,
        >(key + ": '"@ + raw + "' "@ + complaint),
        min <= n <= i32::MAX ==> m.signed_setting(key, name, min as int, complaint) == Ok::<
            Option<int>,
            Seq<char>,
        >(Some(n as int)),
        n < min || n > i32::MAX ==> m.signed_setting(key, name, min as int, complaint) == Err::<
            Option<int>,
            Seq<char>,
        >(key + ": '"@ + raw + "' "@ + complaint),
{
    a_count_is_read_from_its_digits(n, max, raw, 0);
    a_signed_number_is_read_with_its_sign(n, i32::MIN as int, i32::MAX as int);
}

/// A setting that is missing leaves its default, or none; one that cannot be resolved is refused as
/// it is.
pub proof fn a_missing_setting_is_none(
    m: Inputs,
    key: Seq<char>,
    name: Seq<char>,
    min: nat,
    max: nat,
    least: int,
    complaint: Seq<char>,
    default: bool,
)
    ensures
        match m.setting(key, name) {
            Ok(None) => {
                &&& m.number_setting(key, name, min, max, complaint) == Ok::<
                    Option<nat>,
                    Seq<char>,
                >(None)
                &&& m.signed_setting(key, name, least, complaint) == Ok::<Option<int>, Seq<char>>(
                    None,
                )
                &&& m.flag_setting(key, name, default) == Ok::<bool, Seq<char>>(default)
                &&& m.trimmed_setting(key, name) == Ok::<Option<Seq<char>>, Seq<char>>(None)
                &&& m.nonblank_setting(key, name) == Ok::<Option<Seq<char>>, Seq<char>>(None)
            },
            Err(e) => {
                &&& m.number_setting(key, name, min, max, complaint) == Err::<
                    Option<nat>,
                    Seq<char>,
                >(e)
                &&& m.signed_setting(key, name, least, complaint) == Err::<Option<int>, Seq<char>>(
                    e,
                )
                &&& m.flag_setting(key, name, default) == Err::<bool, Seq<char>>(e)
                &&& m.trimmed_setting(key, name) == Err::<Option<Seq<char>>, Seq<char>>(e)
                &&& m.nonblank_setting(key, name) == Err::<Option<Seq<char>>, Seq<char>>(e)
            },
            Ok(Some(raw)) => {
                &&& m.flag_setting(key, name, default) == sources::truth(raw, key)
                &&& text::trimmed(raw).len() == 0 ==> m.trimmed_setting(key, name) == Ok::<
                    Option<Seq<char>>,
                    Seq<char>,
                >(None) && m.nonblank_setting(key, name) == Ok::<Option<Seq<char>>, Seq<char>>(None)
                &&& text::trimmed(raw).len() > 0 ==> m.trimmed_setting(key, name) == Ok::<
                    Option<Seq<char>>,
                    Seq<char>,
                >(Some(text::trimmed(raw))) && m.nonblank_setting(key, name) == Ok::<
                    Option<Seq<char>>,
                    Seq<char>,
                >(Some(raw))
            },
        },
{
}

/// The words for yes and the words for no, in either case of letters; any other word is refused
/// under its key.
pub proof fn a_flag_has_its_words(raw: Seq<char>, key: Seq<char>)
    ensures
        ({
            let w = text::lowered(text::trimmed(raw));
            let yes = w == "true"@ || w == "1"@ || w == "yes"@ || w == "on"@;
            let no = w == "false"@ || w == "0"@ || w == "no"@ || w == "off"@;
            &&& yes ==> sources::truth(raw, key) == Ok::<bool, Seq<char>>(true)
            &&& no ==> sources::truth(raw, key) == Ok::<bool, Seq<char>>(false)
            &&& !yes && !no ==> sources::truth(raw, key) is Err
        }),
{
    reveal_strlit("true");
    reveal_strlit("1");
    reveal_strlit("yes");
    reveal_strlit("on");
    reveal_strlit("false");
    reveal_strlit("0");
    reveal_strlit("no");
    reveal_strlit("off");
    assert("true"@.len() == 4 && "1"@.len() == 1 && "yes"@.len() == 3 && "on"@.len() == 2
        && "false"@.len() == 5 && "0"@.len() == 1 && "no"@.len() == 2 && "off"@.len() == 3);
    assert("1"@[0] == '1' && "0"@[0] == '0' && "yes"@[0] == 'y' && "off"@[0] == 'o' && "on"@[0]
        == 'o' && "no"@[0] == 'n');
}

/// A line of properties sets the key before its first equals sign to what stands behind, both
/// trimmed; a blank line, a comment and a line without the sign set nothing.
pub proof fn a_line_sets_its_key(
    line: Seq<char>,
    key: Seq<char>,
    value: Seq<char>,
    out: Seq<(Seq<char>, Seq<char>)>,
    other: Seq<char>,
)
    requires
        !key.contains('='),
    ensures
        ({
            let l = text::trimmed(line);
            let plain = l.len() > 0 && l[0] != '#' && l[0] != '!';
            let n = sources::entered(line, out);
            &&& plain && l == key + seq!['='] + value ==> keyed::lookup(n, text::trimmed(key))
                == Some(text::trimmed(value)) && (other != text::trimmed(key) ==> keyed::lookup(
                n,
                other,
            ) == keyed::lookup(out, other))
            &&& !plain || !l.contains('=') ==> n == out
        }),
{
    a_text_is_cut_at_the_first(key, value, '=');
    keyed::lookup_put(out, text::trimmed(key), text::trimmed(value), text::trimmed(key));
    keyed::lookup_put(out, text::trimmed(key), text::trimmed(value), other);
    let l = text::trimmed(line);
    if !l.contains('=') {
        a_text_is_cut_at_the_first(l, Seq::empty(), '=');
    }
}

/// The lines of a file set their keys one after another.
pub proof fn lines_are_entered_in_order(lines: Seq<Seq<char>>, line: Seq<char>)
    ensures
        sources::properties(lines.push(line)) == sources::entered(line, sources::properties(lines)),
        sources::properties(Seq::<Seq<char>>::empty()).len() == 0,
{
    assert(lines.push(line).drop_last() =~= lines);
}

/// A gauge counts what was counted where the store can hold the deployment and the count is
/// positive; else it counts nothing.
pub proof fn a_gauge_counts_what_was_counted(storable: bool, count: Result<i64, String>)
    ensures
        match count {
            Ok(n) => if storable && n >= 0 {
                concurrency::admitted(storable, count) == n
            } else {
                concurrency::admitted(storable, count) == 0
            },
            Err(_) => concurrency::admitted(storable, count) == 0,
        },
{
}

/// A gauge counts an instance exactly where the store can hold its deployment and its id denotes a
/// number, and then under that number.
pub proof fn a_gauge_counts_by_the_ids_number(storable: bool, instance_id: Seq<char>)
    ensures
        concurrency::gauged(storable, instance_id) is Some <==> storable && outside::uuid_value(
            instance_id,
        ) is Ok,
        concurrency::gauged(storable, instance_id) matches Some(v) ==> outside::uuid_value(
            instance_id,
        ) == Ok::<u128, Seq<char>>(v),
{
}

/// The four characters of three bytes are the digits of one number: that of the three bytes, in base
/// sixty-four.
pub proof fn three_bytes_are_one_number(b: Seq<u8>, v: Seq<int>)
    requires
        b.len() >= 3,
        v.len() == 4,
        forall|i: int|
            0 <= i < 4 ==> base64::value(base64::encoded(b)[i]) == Some(#[trigger] v[i]),
    ensures
        v[0] * 262_144 + v[1] * 4_096 + v[2] * 64 + v[3] == b[0] * 65_536 + b[1] * 256 + b[2],
{
    let x = b[0] as int;
    let y = b[1] as int;
    let z = b[2] as int;
    base64::symbol_has_its_value(x / 4);
    base64::symbol_has_its_value((x % 4) * 16 + y / 16);
    base64::symbol_has_its_value((y % 16) * 4 + z / 64);
    base64::symbol_has_its_value(z % 64);
    let e = base64::encoded(b);
    assert(e[0] == base64::symbol(x / 4));
    assert(e[1] == base64::symbol((x % 4) * 16 + y / 16));
    assert(e[2] == base64::symbol((y % 16) * 4 + z / 64));
    assert(e[3] == base64::symbol(z % 64));
    assert(v[0] == x / 4 && v[1] == (x % 4) * 16 + y / 16 && v[2] == (y % 16) * 4 + z / 64 && v[3]
        == z % 64);
}

} // verus!
