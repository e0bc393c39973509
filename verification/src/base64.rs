//! The standard base64 alphabet with padding.

use vstd::prelude::*;

use crate::text;

verus! {

/// The character of a six-bit value.
pub open spec fn symbol(v: int) -> char {
    if v < 26 {
        (65 + v) as char
    } else if v < 52 {
        (97 + v - 26) as char
    } else if v < 62 {
        (48 + v - 52) as char
    } else if v == 62 {
        '+'
    } else {
        '/'
    }
}

/// The six-bit value of a character.
pub open spec fn value(c: char) -> Option<int> {
    if 'A' <= c <= 'Z' {
        Some(c as int - 65)
    } else if 'a' <= c <= 'z' {
        Some(c as int - 97 + 26)
    } else if '0' <= c <= '9' {
        Some(c as int - 48 + 52)
    } else if c == '+' {
        Some(62)
    } else if c == '/' {
        Some(63)
    } else {
        None
    }
}

/// The padded encoding of `b`: four characters for every three bytes.
pub open spec fn encoded(b: Seq<u8>) -> Seq<char>
    decreases b.len(),
{
    if b.len() == 0 {
        Seq::empty()
    } else if b.len() == 1 {
        seq![symbol(b[0] as int / 4), symbol((b[0] as int % 4) * 16), '=', '=']
    } else if b.len() == 2 {
        seq![
            symbol(b[0] as int / 4),
            symbol((b[0] as int % 4) * 16 + b[1] as int / 16),
            symbol((b[1] as int % 16) * 4),
            '=',
        ]
    } else {
        seq![
            symbol(b[0] as int / 4),
            symbol((b[0] as int % 4) * 16 + b[1] as int / 16),
            symbol((b[1] as int % 16) * 4 + b[2] as int / 64),
            symbol(b[2] as int % 64),
        ] + encoded(b.skip(3))
    }
}

/// Whether `c` is ASCII white space.
pub open spec fn ascii_blank(c: char) -> bool {
    c == ' ' || c == '\t' || c == '\n' || c == '\r' || c == '\x0c'
}

/// The six-bit values of the characters up to the padding, white space left out; `None` where
/// another character stands among them.
pub open spec fn values(s: Seq<char>) -> Option<Seq<u8>>
    decreases s.len(),
{
    if s.len() == 0 {
        Some(Seq::empty())
    } else if ascii_blank(s[0]) {
        values(s.drop_first())
    } else if s[0] == '=' {
        Some(Seq::empty())
    } else {
        match (value(s[0]), values(s.drop_first())) {
            (Some(v), Some(rest)) => Some(seq![v as u8] + rest),
            _ => None,
        }
    }
}

/// The bytes that six-bit values hold; bits short of a byte at the end are left out.
pub open spec fn bytes(v: Seq<u8>) -> Seq<u8>
    decreases v.len(),
{
    if v.len() < 2 {
        Seq::empty()
    } else if v.len() == 2 {
        seq![(v[0] as int * 4 + v[1] as int / 16) as u8]
    } else if v.len() == 3 {
        seq![
            (v[0] as int * 4 + v[1] as int / 16) as u8,
            ((v[1] as int % 16) * 16 + v[2] as int / 4) as u8,
        ]
    } else {
        seq![
            (v[0] as int * 4 + v[1] as int / 16) as u8,
            ((v[1] as int % 16) * 16 + v[2] as int / 4) as u8,
            ((v[2] as int % 4) * 64 + v[3] as int) as u8,
        ] + bytes(v.skip(4))
    }
}

/// What a base64 text decodes to.
pub open spec fn decoded(s: Seq<char>) -> Option<Seq<u8>> {
    match values(s) {
        Some(v) => Some(bytes(v)),
        None => None,
    }
}

/// A character of the alphabet gives back its value, and is neither padding nor white space.
pub proof fn symbol_has_its_value(v: int)
    requires
        0 <= v < 64,
    ensures
        value(symbol(v)) == Some(v),
        symbol(v) != '=',
        !ascii_blank(symbol(v)),
{
}

proof fn values_of_symbol(v: int, rest: Seq<char>)
    requires
        0 <= v < 64,
    ensures
        values(seq![symbol(v)] + rest) == match values(rest) {
            Some(t) => Some(seq![v as u8] + t),
            None => None,
        },
{
    symbol_has_its_value(v);
    let s = seq![symbol(v)] + rest;
    assert(s[0] == symbol(v));
    assert(s.drop_first() =~= rest);
}

/// Decoding an encoding gives back the bytes.
pub proof fn decoding_undoes_encoding(b: Seq<u8>)
    ensures
        decoded(encoded(b)) == Some(b),
    decreases b.len(),
{
    if b.len() == 0 {
        assert(bytes(Seq::<u8>::empty()) =~= b);
    } else {
        let x = b[0] as int;
        let s0 = x / 4;
        let pad = seq!['='];
        assert(values(pad) == Some(Seq::<u8>::empty()));
        if b.len() == 1 {
            let s1 = (x % 4) * 16;
            let pad2 = seq!['=', '='];
            assert(values(pad2) == Some(Seq::<u8>::empty()));
            values_of_symbol(s1, pad2);
            values_of_symbol(s0, seq![symbol(s1)] + pad2);
            assert(encoded(b) =~= seq![symbol(s0)] + (seq![symbol(s1)] + pad2));
            let v = seq![s0 as u8] + (seq![s1 as u8] + Seq::<u8>::empty());
            assert(values(encoded(b)) == Some(v));
            assert(v.len() == 2 && v[0] == s0 && v[1] == s1);
            assert(bytes(v) =~= b);
        } else if b.len() == 2 {
            let y = b[1] as int;
            let s1 = (x % 4) * 16 + y / 16;
            let s2 = (y % 16) * 4;
            values_of_symbol(s2, pad);
            values_of_symbol(s1, seq![symbol(s2)] + pad);
            values_of_symbol(s0, seq![symbol(s1)] + (seq![symbol(s2)] + pad));
            assert(encoded(b) =~= seq![symbol(s0)] + (seq![symbol(s1)] + (seq![symbol(s2)] + pad)));
            let v = seq![s0 as u8] + (seq![s1 as u8] + (seq![s2 as u8] + Seq::<u8>::empty()));
            assert(values(encoded(b)) == Some(v));
            assert(v.len() == 3 && v[0] == s0 && v[1] == s1 && v[2] == s2);
            assert(bytes(v) =~= b);
        } else {
            let y = b[1] as int;
            let z = b[2] as int;
            let s1 = (x % 4) * 16 + y / 16;
            let s2 = (y % 16) * 4 + z / 64;
            let s3 = z % 64;
            let rest = encoded(b.skip(3));
            decoding_undoes_encoding(b.skip(3));
            values_of_symbol(s3, rest);
            values_of_symbol(s2, seq![symbol(s3)] + rest);
            values_of_symbol(s1, seq![symbol(s2)] + (seq![symbol(s3)] + rest));
            values_of_symbol(s0, seq![symbol(s1)] + (seq![symbol(s2)] + (seq![symbol(s3)] + rest)));
            assert(encoded(b) =~= seq![symbol(s0)] + (seq![symbol(s1)] + (seq![symbol(s2)] + (seq![
                symbol(s3),
            ] + rest))));
            let t = values(rest)->0;
            let v = seq![s0 as u8] + (seq![s1 as u8] + (seq![s2 as u8] + (seq![s3 as u8] + t)));
            assert(values(encoded(b)) == Some(v));
            assert(v[0] == s0 && v[1] == s1 && v[2] == s2 && v[3] == s3);
            assert(v.skip(4) =~= t);
            assert(bytes(v) =~= b);
        }
    }
}

fn symbol_char(v: u8) -> (r: char)
    requires
        v < 64,
    ensures
        r == symbol(v as int),
{
    if v < 26 {
        (65 + v) as char
    } else if v < 52 {
        (97 + (v - 26)) as char
    } else if v < 62 {
        (48 + (v - 52)) as char
    } else if v == 62 {
        '+'
    } else {
        '/'
    }
}

fn char_value(c: char) -> (r: Option<u8>)
    ensures
        match r {
            Some(v) => value(c) == Some(v as int) && v < 64,
            None => value(c) is None,
        },
{
    if 'A' <= c && c <= 'Z' {
        Some((c as u8) - 65)
    } else if 'a' <= c && c <= 'z' {
        Some((c as u8) - 97 + 26)
    } else if '0' <= c && c <= '9' {
        Some((c as u8) - 48 + 52)
    } else if c == '+' {
        Some(62)
    } else if c == '/' {
        Some(63)
    } else {
        None
    }
}

/// Encode bytes.
pub fn base64(b: &Vec<u8>) -> (r: String)
    ensures
        r@ == encoded(b@),
{
    let mut out = String::new();
    let mut i: usize = 0;
    assert(b@.skip(0) =~= b@);
    while b.len() - i >= 3
        invariant
            i <= b.len(),
            encoded(b@) == out@ + encoded(b@.skip(i as int)),
        decreases b.len() - i,
    {
        let ghost rest = b@.skip(i as int);
        let ghost done = out@;
        assert(rest[0] == b@[i as int] && rest[1] == b@[i + 1] && rest[2] == b@[i + 2]);
        assert(rest.skip(3) =~= b@.skip(i + 3));
        let x = b[i];
        let y = b[i + 1];
        let z = b[i + 2];
        out.push(symbol_char(x / 4));
        out.push(symbol_char((x % 4) * 16 + y / 16));
        out.push(symbol_char((y % 16) * 4 + z / 64));
        out.push(symbol_char(z % 64));
        assert(done + encoded(rest) =~= out@ + encoded(b@.skip(i + 3)));
        i = i + 3;
    }
    let ghost rest = b@.skip(i as int);
    let ghost done = out@;
    if b.len() - i == 1 {
        let x = b[i];
        assert(rest[0] == x);
        out.push(symbol_char(x / 4));
        out.push(symbol_char((x % 4) * 16));
        out.push('=');
        out.push('=');
    } else if b.len() - i == 2 {
        let x = b[i];
        let y = b[i + 1];
        assert(rest[0] == x && rest[1] == y);
        out.push(symbol_char(x / 4));
        out.push(symbol_char((x % 4) * 16 + y / 16));
        out.push(symbol_char((y % 16) * 4));
        out.push('=');
    }
    assert(out@ =~= done + encoded(rest));
    out
}

/// Read the six-bit values of a text, from `from` on.
fn read_values(x: &Vec<char>) -> (r: Option<Vec<u8>>)
    ensures
        match r {
            Some(v) => values(x@) == Some(v@) && forall|i: int| 0 <= i < v@.len() ==> v@[i] < 64,
            None => values(x@) is None,
        },
{
    let mut out: Vec<u8> = Vec::new();
    let mut i: usize = 0;
    assert(x@.skip(0) =~= x@);
    proof {
        match values(x@) {
            Some(t) => {
                assert(out@ + t =~= t);
            },
            None => {},
        }
    }
    while i < x.len()
        invariant
            i <= x.len(),
            values(x@) == match values(x@.skip(i as int)) {
                Some(t) => Some(out@ + t),
                None => None,
            },
            forall|k: int| 0 <= k < out@.len() ==> out@[k] < 64,
        decreases x.len() - i,
    {
        let c = x[i];
        let ghost rest = x@.skip(i as int);
        assert(rest[0] == c);
        assert(rest.drop_first() =~= x@.skip(i + 1));
        if c == ' ' || c == '\t' || c == '\n' || c == '\r' || c == '\x0c' {
            i = i + 1;
        } else if c == '=' {
            assert(out@ + Seq::<u8>::empty() =~= out@);
            return Some(out);
        } else {
            match char_value(c) {
                None => {
                    return None;
                },
                Some(v) => {
                    let ghost done = out@;
                    out.push(v);
                    proof {
                        match values(x@.skip(i + 1)) {
                            Some(t) => {
                                assert(done + (seq![v] + t) =~= out@ + t);
                            },
                            None => {},
                        }
                    }
                },
            }
            i = i + 1;
        }
    }
    assert(out@ + Seq::<u8>::empty() =~= out@);
    Some(out)
}

/// Decode a base64 text. White space is skipped, padding ends the text, and any other character
/// outside the alphabet makes it no base64.
pub fn decode_base64(s: &str) -> (r: Option<Vec<u8>>)
    ensures
        match r {
            Some(b) => decoded(s@) == Some(b@),
            None => decoded(s@) is None,
        },
{
    let x = text::chars_of(s);
    let v = match read_values(&x) {
        Some(v) => v,
        None => {
            return None;
        },
    };
    let mut out: Vec<u8> = Vec::new();
    let mut i: usize = 0;
    assert(v@.skip(0) =~= v@);
    assert(out@ + bytes(v@) =~= bytes(v@));
    while v.len() - i >= 4
        invariant
            i <= v.len(),
            forall|k: int| 0 <= k < v@.len() ==> v@[k] < 64,
            bytes(v@) == out@ + bytes(v@.skip(i as int)),
        decreases v.len() - i,
    {
        let ghost rest = v@.skip(i as int);
        let ghost done = out@;
        assert(rest[0] == v@[i as int] && rest[1] == v@[i + 1] && rest[2] == v@[i + 2] && rest[3]
            == v@[i + 3]);
        assert(rest.skip(4) =~= v@.skip(i + 4));
        let a = v[i];
        let b = v[i + 1];
        let c = v[i + 2];
        let d = v[i + 3];
        out.push(a * 4 + b / 16);
        out.push((b % 16) * 16 + c / 4);
        out.push((c % 4) * 64 + d);
        assert(done + bytes(rest) =~= out@ + bytes(v@.skip(i + 4)));
        i = i + 4;
    }
    let ghost rest = v@.skip(i as int);
    let ghost done = out@;
    if v.len() - i == 2 {
        assert(rest[0] == v@[i as int] && rest[1] == v@[i + 1]);
        out.push(v[i] * 4 + v[i + 1] / 16);
    } else if v.len() - i == 3 {
        assert(rest[0] == v@[i as int] && rest[1] == v@[i + 1] && rest[2] == v@[i + 2]);
        out.push(v[i] * 4 + v[i + 1] / 16);
        out.push((v[i + 1] % 16) * 16 + v[i + 2] / 4);
    }
    assert(out@ =~= done + bytes(rest));
    Some(out)
}

} // verus!
