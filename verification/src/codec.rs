//! Byte-level JSON string escaping and parsing.
//!
//! The index files of the store hold JSON arrays of flat objects with string
//! fields. This module gives the string layer: escaping a byte string into a
//! JSON string literal, parsing one back, and the proof that parsing inverts
//! escaping.

use vstd::prelude::*;

verus! {

/// Double quote.
pub const QUOTE: u8 = 34;

/// Backslash.
pub const BACKSLASH: u8 = 92;

/// The lowercase hexadecimal digit for `n < 16`.
pub open spec fn hex_digit(n: u8) -> u8 {
    if n < 10 {
        (48 + n) as u8
    } else {
        (87 + n) as u8
    }
}

/// The value of a hexadecimal digit byte, upper or lower case.
pub open spec fn hex_val(b: u8) -> Option<u8> {
    if 48 <= b <= 57 {
        Some((b - 48) as u8)
    } else if 97 <= b <= 102 {
        Some((b - 87) as u8)
    } else if 65 <= b <= 70 {
        Some((b - 55) as u8)
    } else {
        None
    }
}

/// The escape of one byte inside a JSON string literal: quotes, backslashes
/// and control characters are escaped, everything else stands as itself.
pub open spec fn esc_byte(b: u8) -> Seq<u8> {
    if b == 34 {
        seq![92u8, 34u8]
    } else if b == 92 {
        seq![92u8, 92u8]
    } else if b == 10 {
        seq![92u8, 110u8]
    } else if b == 13 {
        seq![92u8, 114u8]
    } else if b == 9 {
        seq![92u8, 116u8]
    } else if b < 32 {
        seq![92u8, 117u8, 48u8, 48u8, hex_digit(b / 16), hex_digit(b % 16)]
    } else {
        seq![b]
    }
}

/// The escape of a whole byte string.
pub open spec fn esc_bytes(s: Seq<u8>) -> Seq<u8>
    decreases s.len(),
{
    if s.len() == 0 {
        Seq::empty()
    } else {
        esc_byte(s[0]) + esc_bytes(s.skip(1))
    }
}

/// A byte string as a JSON string literal: quote, escaped bytes, quote.
pub open spec fn ser_str(s: Seq<u8>) -> Seq<u8> {
    seq![QUOTE] + esc_bytes(s) + seq![QUOTE]
}

/// Escaping distributes over appending one byte.
pub proof fn lemma_esc_bytes_push(s: Seq<u8>, b: u8)
    ensures
        esc_bytes(s.push(b)) == esc_bytes(s) + esc_byte(b),
    decreases s.len(),
{
    if s.len() == 0 {
        assert(s.push(b)[0] == b);
        assert(s.push(b).skip(1) =~= Seq::<u8>::empty());
        assert(esc_bytes(s.push(b)) == esc_byte(b) + esc_bytes(Seq::<u8>::empty()));
        assert(esc_bytes(Seq::<u8>::empty()) == Seq::<u8>::empty());
        assert(esc_bytes(s) == Seq::<u8>::empty());
        assert(esc_byte(b) + Seq::<u8>::empty() =~= Seq::<u8>::empty() + esc_byte(b));
    } else {
        assert(s.push(b)[0] == s[0]);
        assert(s.push(b).skip(1) =~= s.skip(1).push(b));
        assert(esc_bytes(s.push(b)) == esc_byte(s[0]) + esc_bytes(s.skip(1).push(b)));
        lemma_esc_bytes_push(s.skip(1), b);
        assert(esc_byte(s[0]) + (esc_bytes(s.skip(1)) + esc_byte(b)) =~= (esc_byte(s[0])
            + esc_bytes(s.skip(1))) + esc_byte(b));
    }
}

/// The value of a single-character escape after a backslash.
pub open spec fn unescape_char(e: u8) -> Option<u8> {
    if e == 34 {
        Some(34u8)
    } else if e == 92 {
        Some(92u8)
    } else if e == 47 {
        Some(47u8)
    } else if e == 98 {
        Some(8u8)
    } else if e == 102 {
        Some(12u8)
    } else if e == 110 {
        Some(10u8)
    } else if e == 114 {
        Some(13u8)
    } else if e == 116 {
        Some(9u8)
    } else {
        None
    }
}

/// Parses the body of a JSON string literal (the opening quote already
/// consumed) up to and including the closing quote. Returns the unescaped
/// content and the input that follows the closing quote.
pub open spec fn parse_str_body(d: Seq<u8>) -> Option<(Seq<u8>, Seq<u8>)>
    decreases d.len(),
{
    if d.len() == 0 {
        None
    } else if d[0] == QUOTE {
        Some((Seq::empty(), d.skip(1)))
    } else if d[0] == BACKSLASH {
        if d.len() < 2 {
            None
        } else if d[1] == 117 {
            if d.len() < 6 {
                None
            } else {
                match (hex_val(d[2]), hex_val(d[3]), hex_val(d[4]), hex_val(d[5])) {
                    (Some(h0), Some(h1), Some(h2), Some(h3)) => {
                        let v = h0 * 4096 + h1 * 256 + h2 * 16 + h3;
                        if v < 128 {
                            match parse_str_body(d.skip(6)) {
                                Some(p) => Some((seq![v as u8] + p.0, p.1)),
                                None => None,
                            }
                        } else {
                            None
                        }
                    },
                    _ => None,
                }
            }
        } else {
            match unescape_char(d[1]) {
                Some(c) => match parse_str_body(d.skip(2)) {
                    Some(p) => Some((seq![c] + p.0, p.1)),
                    None => None,
                },
                None => None,
            }
        }
    } else if d[0] < 32 {
        None
    } else {
        match parse_str_body(d.skip(1)) {
            Some(p) => Some((seq![d[0]] + p.0, p.1)),
            None => None,
        }
    }
}

/// Parses a whole JSON string literal, opening quote included.
pub open spec fn parse_qstring(d: Seq<u8>) -> Option<(Seq<u8>, Seq<u8>)> {
    if d.len() > 0 && d[0] == QUOTE {
        parse_str_body(d.skip(1))
    } else {
        None
    }
}

/// Consumes an expected literal prefix from the input.
pub open spec fn take_lit(d: Seq<u8>, l: Seq<u8>) -> Option<Seq<u8>> {
    if d.len() >= l.len() && d.take(l.len() as int) == l {
        Some(d.skip(l.len() as int))
    } else {
        None
    }
}

/// A literal prefix always parses as itself.
pub proof fn lemma_take_lit(l: Seq<u8>, rest: Seq<u8>)
    ensures
        take_lit(l + rest, l) == Some(rest),
{
    assert((l + rest).take(l.len() as int) =~= l);
    assert((l + rest).skip(l.len() as int) =~= rest);
}

/// A hexadecimal digit reads back as its value.
pub proof fn lemma_hex_round(n: u8)
    requires
        n < 16,
    ensures
        hex_val(hex_digit(n)) == Some(n),
{
}

/// Parsing a string body inverts escaping: the escaped bytes of `s` followed
/// by a closing quote and `rest` parse to exactly `s` and `rest`.
#[verifier::rlimit(50)]
pub proof fn lemma_parse_esc(s: Seq<u8>, rest: Seq<u8>)
    ensures
        parse_str_body(esc_bytes(s) + seq![QUOTE] + rest) == Some((s, rest)),
    decreases s.len(),
{
    let d = esc_bytes(s) + seq![QUOTE] + rest;
    if s.len() == 0 {
        assert(esc_bytes(s) == Seq::<u8>::empty());
        assert(d =~= seq![QUOTE] + rest);
        assert(d[0] == QUOTE);
        assert(d.skip(1) =~= rest);
        assert(parse_str_body(d) == Some((Seq::<u8>::empty(), rest)));
        assert(s =~= Seq::<u8>::empty());
    } else {
        let b = s[0];
        let e = esc_byte(b);
        let d1 = esc_bytes(s.skip(1)) + seq![QUOTE] + rest;
        assert(esc_bytes(s) == e + esc_bytes(s.skip(1)));
        assert(d =~= e + d1);
        lemma_parse_esc(s.skip(1), rest);
        assert(parse_str_body(d1) == Some((s.skip(1), rest)));
        assert(seq![b] + s.skip(1) =~= s);
        if b == 34 || b == 92 || b == 10 || b == 13 || b == 9 {
            assert(e.len() == 2 && e[0] == BACKSLASH);
            assert(d[0] == BACKSLASH && d[1] == e[1]);
            assert(unescape_char(d[1]) == Some(b));
            assert(d.skip(2) =~= d1);
            assert(parse_str_body(d) == Some((seq![b] + s.skip(1), rest)));
        } else if b < 32 {
            assert(e.len() == 6);
            assert(d[0] == BACKSLASH && d[1] == 117 && d[2] == 48 && d[3] == 48);
            assert(d[4] == hex_digit(b / 16) && d[5] == hex_digit(b % 16));
            assert(b / 16 < 16 && b % 16 < 16);
            lemma_hex_round(b / 16);
            lemma_hex_round(b % 16);
            assert(hex_val(d[2]) == Some(0u8) && hex_val(d[3]) == Some(0u8));
            assert((b / 16) * 16 + b % 16 == b) by {
                vstd::arithmetic::div_mod::lemma_fundamental_div_mod(b as int, 16);
            }
            let v = 0 * 4096 + 0 * 256 + (b / 16) * 16 + b % 16;
            assert(v == b);
            assert(v < 128);
            assert(d.skip(6) =~= d1);
            assert(parse_str_body(d) == Some((seq![b] + s.skip(1), rest)));
        } else {
            assert(e.len() == 1 && e[0] == b);
            assert(d[0] == b);
            assert(b != QUOTE && b != BACKSLASH && b >= 32);
            assert(d.skip(1) =~= d1);
            assert(parse_str_body(d) == Some((seq![b] + s.skip(1), rest)));
        }
    }
}

/// Parsing a string literal inverts serialization.
pub proof fn lemma_parse_ser_str(s: Seq<u8>, rest: Seq<u8>)
    ensures
        parse_qstring(ser_str(s) + rest) == Some((s, rest)),
{
    let d = ser_str(s) + rest;
    assert(d[0] == QUOTE);
    assert(d.skip(1) =~= esc_bytes(s) + seq![QUOTE] + rest);
    lemma_parse_esc(s, rest);
}

/// The lowercase hexadecimal digit for `n < 16`, at run time.
pub fn hex_digit_exec(n: u8) -> (r: u8)
    requires
        n < 16,
    ensures
        r == hex_digit(n),
{
    if n < 10 {
        48 + n
    } else {
        87 + n
    }
}

/// The value of a hexadecimal digit byte, at run time.
pub fn hex_val_exec(b: u8) -> (r: Option<u8>)
    ensures
        r == hex_val(b),
{
    if 48 <= b && b <= 57 {
        Some(b - 48)
    } else if 97 <= b && b <= 102 {
        Some(b - 87)
    } else if 65 <= b && b <= 70 {
        Some(b - 55)
    } else {
        None
    }
}

/// Appends the escape of `s` to `out`.
pub fn escape_into(out: &mut Vec<u8>, s: &[u8])
    ensures
        final(out)@ == old(out)@ + esc_bytes(s@),
{
    let n = s.len();
    let mut i: usize = 0;
    while i < n
        invariant
            0 <= i <= n,
            n == s@.len(),
            out@ == old(out)@ + esc_bytes(s@.take(i as int)),
        decreases n - i,
    {
        let b = s[i];
        proof {
            assert(s@.take(i + 1) =~= s@.take(i as int).push(b));
            lemma_esc_bytes_push(s@.take(i as int), b);
        }
        if b == 34 {
            out.push(92);
            out.push(34);
        } else if b == 92 {
            out.push(92);
            out.push(92);
        } else if b == 10 {
            out.push(92);
            out.push(110);
        } else if b == 13 {
            out.push(92);
            out.push(114);
        } else if b == 9 {
            out.push(92);
            out.push(116);
        } else if b < 32 {
            out.push(92);
            out.push(117);
            out.push(48);
            out.push(48);
            out.push(hex_digit_exec(b / 16));
            out.push(hex_digit_exec(b % 16));
        } else {
            out.push(b);
        }
        proof {
            assert(out@ =~= old(out)@ + esc_bytes(s@.take(i + 1)));
        }
        i = i + 1;
    }
    proof {
        assert(s@.take(n as int) =~= s@);
    }
}

/// Appends the JSON string literal for `s` to `out`.
pub fn write_str(out: &mut Vec<u8>, s: &[u8])
    ensures
        final(out)@ == old(out)@ + ser_str(s@),
{
    out.push(QUOTE);
    escape_into(out, s);
    out.push(QUOTE);
    proof {
        assert(out@ =~= old(out)@ + ser_str(s@));
    }
}

/// Parses a JSON string literal starting at `i`. On success returns the
/// unescaped content and the position just past the closing quote.
pub fn parse_string(data: &[u8], i: usize) -> (r: Option<(Vec<u8>, usize)>)
    requires
        i <= data@.len(),
    ensures
        match r {
            Some(p) => i <= p.1 <= data@.len() && parse_qstring(data@.skip(i as int)) == Some(
                (p.0@, data@.skip(p.1 as int)),
            ),
            None => parse_qstring(data@.skip(i as int)) is None,
        },
{
    let n = data.len();
    if i >= n || data[i] != QUOTE {
        return None;
    }
    proof {
        assert(data@.skip(i as int)[0] == QUOTE);
        assert(data@.skip(i as int).skip(1) =~= data@.skip(i + 1));
    }
    let mut cur: usize = i + 1;
    let mut acc: Vec<u8> = Vec::new();
    loop
        invariant
            i + 1 <= cur <= n,
            n == data@.len(),
            parse_qstring(data@.skip(i as int)) == (match parse_str_body(data@.skip(cur as int)) {
                Some(p) => Some((acc@ + p.0, p.1)),
                None => None,
            }),
        decreases n - cur,
    {
        if cur >= n {
            return None;
        }
        let b = data[cur];
        proof {
            assert(data@.skip(cur as int)[0] == b);
        }
        if b == QUOTE {
            proof {
                assert(data@.skip(cur as int).skip(1) =~= data@.skip(cur + 1));
                assert(acc@ + Seq::<u8>::empty() =~= acc@);
            }
            return Some((acc, cur + 1));
        } else if b == BACKSLASH {
            if cur + 1 >= n {
                proof {
                    assert(data@.skip(cur as int).len() < 2);
                }
                return None;
            }
            let e = data[cur + 1];
            proof {
                assert(data@.skip(cur as int)[1] == e);
            }
            if e == 117 {
                if n - cur < 6 {
                    return None;
                }
                let h0 = hex_val_exec(data[cur + 2]);
                let h1 = hex_val_exec(data[cur + 3]);
                let h2 = hex_val_exec(data[cur + 4]);
                let h3 = hex_val_exec(data[cur + 5]);
                proof {
                    assert(data@.skip(cur as int)[2] == data@[cur + 2]);
                    assert(data@.skip(cur as int)[3] == data@[cur + 3]);
                    assert(data@.skip(cur as int)[4] == data@[cur + 4]);
                    assert(data@.skip(cur as int)[5] == data@[cur + 5]);
                }
                match (h0, h1, h2, h3) {
                    (Some(v0), Some(v1), Some(v2), Some(v3)) => {
                        let v: u32 = (v0 as u32) * 4096 + (v1 as u32) * 256 + (v2 as u32) * 16 + (
                        v3 as u32);
                        if v >= 128 {
                            return None;
                        }
                        let ghost prev = acc@;
                        acc.push(v as u8);
                        proof {
                            assert(data@.skip(cur as int).skip(6) =~= data@.skip(cur + 6));
                            match parse_str_body(data@.skip(cur + 6)) {
                                Some(p) => {
                                    assert(prev + (seq![v as u8] + p.0) =~= acc@ + p.0);
                                },
                                None => {},
                            }
                        }
                        cur = cur + 6;
                    },
                    _ => {
                        return None;
                    },
                }
            } else {
                let c = match unescape_char_exec(e) {
                    Some(c) => c,
                    None => {
                        return None;
                    },
                };
                let ghost prev = acc@;
                acc.push(c);
                proof {
                    assert(data@.skip(cur as int).skip(2) =~= data@.skip(cur + 2));
                    match parse_str_body(data@.skip(cur + 2)) {
                        Some(p) => {
                            assert(prev + (seq![c] + p.0) =~= acc@ + p.0);
                        },
                        None => {},
                    }
                }
                cur = cur + 2;
            }
        } else if b < 32 {
            return None;
        } else {
            let ghost prev = acc@;
            acc.push(b);
            proof {
                assert(data@.skip(cur as int).skip(1) =~= data@.skip(cur + 1));
                match parse_str_body(data@.skip(cur + 1)) {
                    Some(p) => {
                        assert(prev + (seq![b] + p.0) =~= acc@ + p.0);
                    },
                    None => {},
                }
            }
            cur = cur + 1;
        }
    }
}

/// The value of a single-character escape, at run time.
pub fn unescape_char_exec(e: u8) -> (r: Option<u8>)
    ensures
        r == unescape_char(e),
{
    if e == 34 {
        Some(34)
    } else if e == 92 {
        Some(92)
    } else if e == 47 {
        Some(47)
    } else if e == 98 {
        Some(8)
    } else if e == 102 {
        Some(12)
    } else if e == 110 {
        Some(10)
    } else if e == 114 {
        Some(13)
    } else if e == 116 {
        Some(9)
    } else {
        None
    }
}

/// Consumes the expected literal `l` at position `i`. On success returns the
/// position just past it.
pub fn expect_lit(data: &[u8], i: usize, l: &[u8]) -> (r: Option<usize>)
    requires
        i <= data@.len(),
    ensures
        match r {
            Some(j) => i <= j <= data@.len() && take_lit(data@.skip(i as int), l@) == Some(
                data@.skip(j as int),
            ),
            None => take_lit(data@.skip(i as int), l@) is None,
        },
{
    let n = data.len();
    let m = l.len();
    if n - i < m {
        return None;
    }
    let mut k: usize = 0;
    while k < m
        invariant
            0 <= k <= m,
            m == l@.len(),
            n == data@.len(),
            i + m <= n,
            forall|t: int| 0 <= t < k ==> data@.skip(i as int)[t] == l@[t],
        decreases m - k,
    {
        if data[i + k] != l[k] {
            proof {
                assert(data@.skip(i as int)[k as int] != l@[k as int]);
                assert(data@.skip(i as int).take(m as int)[k as int] != l@[k as int]);
            }
            return None;
        }
        proof {
            assert(data@.skip(i as int)[k as int] == l@[k as int]);
        }
        k = k + 1;
    }
    proof {
        assert(data@.skip(i as int).take(m as int) =~= l@);
        assert(data@.skip(i as int).skip(m as int) =~= data@.skip(i + m));
    }
    Some(i + m)
}

} // verus!
