//! Parsing of the configured server address, an IPv4 `host:port`
//! string: four decimal octets separated by dots, a colon, and a
//! decimal port. Octets are written without leading zeros (except
//! `0` itself) and fit in a byte; the port fits in sixteen bits.

use vstd::prelude::*;

use crate::errors::ProxyError;

verus! {

pub const DOT: u8 = 46;

pub const COLON: u8 = 58;

/// An IPv4 endpoint as plain values: the four address octets and
/// the port.
#[derive(Clone, Copy, PartialEq, Eq, Structural, Debug)]
pub struct Ipv4Endpoint {
    pub a: u8,
    pub b: u8,
    pub c: u8,
    pub d: u8,
    pub port: u16,
}

/// ASCII decimal digit.
pub open spec fn is_digit(ch: u8) -> bool {
    48 <= ch <= 57
}

/// The numeric value of a digit byte.
pub open spec fn digit_val(ch: u8) -> nat {
    (ch - 48) as nat
}

pub open spec fn all_digits(s: Seq<u8>) -> bool {
    forall|q: int| 0 <= q < s.len() ==> is_digit(#[trigger] s[q])
}

/// The value of a string of decimal digits, most significant first.
pub open spec fn dec_val(s: Seq<u8>) -> nat
    decreases s.len(),
{
    if s.len() == 0 {
        0
    } else {
        dec_val(s.drop_last()) * 10 + digit_val(s.last())
    }
}

pub open spec fn pow10(n: nat) -> nat
    decreases n,
{
    if n == 0 {
        1
    } else {
        10 * pow10((n - 1) as nat)
    }
}

/// `s` is the text of one address octet: one to three digits, no
/// leading zero unless the octet is exactly `0`, value at most 255.
pub open spec fn octet_text(s: Seq<u8>) -> bool {
    &&& 1 <= s.len() <= 3
    &&& all_digits(s)
    &&& (s.len() > 1 ==> s[0] != 48)
    &&& dec_val(s) <= 255
}

pub open spec fn spells_octet(s: Seq<u8>, v: nat) -> bool {
    octet_text(s) && dec_val(s) == v
}

/// `s` is the text of a port: one to five digits (leading zeros
/// allowed), value at most 65535.
pub open spec fn port_text(s: Seq<u8>) -> bool {
    &&& 1 <= s.len() <= 5
    &&& all_digits(s)
    &&& dec_val(s) <= 65535
}

pub open spec fn spells_port(s: Seq<u8>, v: nat) -> bool {
    port_text(s) && dec_val(s) == v
}

/// `s` spells the endpoint `e`: four dot-separated octets, a colon,
/// and a port, with `i`, `j`, `k` the dots and `c` the colon.
pub open spec fn spells_endpoint_at(s: Seq<u8>, e: Ipv4Endpoint, i: int, j: int, k: int, c: int) -> bool {
    &&& 0 <= i < j < k < c < s.len()
    &&& s[i] == DOT
    &&& s[j] == DOT
    &&& s[k] == DOT
    &&& s[c] == COLON
    &&& spells_octet(s.subrange(0, i), e.a as nat)
    &&& spells_octet(s.subrange(i + 1, j), e.b as nat)
    &&& spells_octet(s.subrange(j + 1, k), e.c as nat)
    &&& spells_octet(s.subrange(k + 1, c), e.d as nat)
    &&& spells_port(s.subrange(c + 1, s.len() as int), e.port as nat)
}

pub open spec fn spells_endpoint(s: Seq<u8>, e: Ipv4Endpoint) -> bool {
    exists|i: int, j: int, k: int, c: int| spells_endpoint_at(s, e, i, j, k, c)
}

/// `s` is a well-formed IPv4 `host:port` string.
pub open spec fn valid_endpoint(s: Seq<u8>) -> bool {
    exists|e: Ipv4Endpoint| spells_endpoint(s, e)
}

pub proof fn lemma_pow10_mono(m: nat, n: nat)
    requires
        m <= n,
    ensures
        pow10(m) <= pow10(n),
    decreases n,
{
    if m < n {
        lemma_pow10_mono(m, (n - 1) as nat);
    }
}

/// A digit string's value is below ten to its length.
pub proof fn lemma_dec_val_bound(s: Seq<u8>)
    requires
        all_digits(s),
    ensures
        dec_val(s) < pow10(s.len()),
    decreases s.len(),
{
    if s.len() == 0 {
    } else {
        assert(all_digits(s.drop_last()));
        lemma_dec_val_bound(s.drop_last());
        assert(digit_val(s.last()) <= 9);
    }
}

/// First occurrence of byte `b` in `s[from..to]`, if any.
fn find_byte(s: &[u8], from: usize, to: usize, b: u8) -> (r: Option<usize>)
    requires
        from <= to <= s@.len(),
    ensures
        match r {
            Some(p) => from <= p < to && s@[p as int] == b
                && (forall|q: int| from <= q < p ==> s@[q] != b),
            None => forall|q: int| from <= q < to ==> s@[q] != b,
        },
{
    let mut p: usize = from;
    while p < to
        invariant
            from <= p <= to <= s@.len(),
            forall|q: int| from <= q < p ==> s@[q] != b,
        decreases to - p,
    {
        if s[p] == b {
            return Some(p);
        }
        p = p + 1;
    }
    None
}

/// Reads `s[from..to]` as a decimal number of at most five digits.
/// Returns its value, or `None` when the range is empty or holds a
/// non-digit.
fn read_number(s: &[u8], from: usize, to: usize) -> (r: Option<u32>)
    requires
        from <= to <= s@.len(),
        to - from <= 5,
    ensures
        match r {
            Some(v) => from < to && all_digits(s@.subrange(from as int, to as int))
                && v as nat == dec_val(s@.subrange(from as int, to as int)),
            None => from == to || !all_digits(s@.subrange(from as int, to as int)),
        },
{
    if from == to {
        return None;
    }
    let mut p: usize = from;
    let mut acc: u32 = 0;
    while p < to
        invariant
            from <= p <= to <= s@.len(),
            to - from <= 5,
            forall|q: int| from <= q < p ==> is_digit(#[trigger] s@[q]),
            acc as nat == dec_val(s@.subrange(from as int, p as int)),
        decreases to - p,
    {
        let ch = s[p];
        if ch < 48 || ch > 57 {
            proof {
                let sub = s@.subrange(from as int, to as int);
                assert(sub[p - from] == s@[p as int]);
                assert(!is_digit(sub[p - from]));
            }
            return None;
        }
        proof {
            let pre = s@.subrange(from as int, p as int);
            assert(all_digits(pre));
            lemma_dec_val_bound(pre);
            lemma_pow10_mono(pre.len(), 4);
            reveal_with_fuel(pow10, 5);
            assert(pow10(4) == 10000);
        }
        let d: u32 = (ch - 48) as u32;
        acc = acc * 10 + d;
        p = p + 1;
        proof {
            let pre = s@.subrange(from as int, p - 1);
            let cur = s@.subrange(from as int, p as int);
            assert(cur.drop_last() =~= pre);
            assert(cur.last() == s@[p - 1]);
        }
    }
    proof {
        let sub = s@.subrange(from as int, to as int);
        assert forall|q: int| 0 <= q < sub.len() implies is_digit(#[trigger] sub[q]) by {
            assert(sub[q] == s@[from + q]);
        }
    }
    Some(acc)
}

/// Reads `s[from..to]` as one address octet; `None` exactly when the
/// range is not octet text.
fn check_octet(s: &[u8], from: usize, to: usize) -> (r: Option<u8>)
    requires
        from <= to <= s@.len(),
    ensures
        match r {
            Some(v) => spells_octet(s@.subrange(from as int, to as int), v as nat),
            None => !octet_text(s@.subrange(from as int, to as int)),
        },
{
    if to - from < 1 || to - from > 3 {
        return None;
    }
    let v: u32 = match read_number(s, from, to) {
        Some(v) => v,
        None => {
            return None;
        },
    };
    if to - from > 1 && s[from] == 48 {
        proof {
            assert(s@.subrange(from as int, to as int)[0] == s@[from as int]);
        }
        return None;
    }
    if v > 255 {
        return None;
    }
    proof {
        assert(s@.subrange(from as int, to as int)[0] == s@[from as int]);
    }
    Some(v as u8)
}

/// Reads `s[from..to]` as a port; `None` exactly when the range is
/// not port text.
fn check_port(s: &[u8], from: usize, to: usize) -> (r: Option<u16>)
    requires
        from <= to <= s@.len(),
    ensures
        match r {
            Some(v) => spells_port(s@.subrange(from as int, to as int), v as nat),
            None => !port_text(s@.subrange(from as int, to as int)),
        },
{
    if to - from < 1 || to - from > 5 {
        return None;
    }
    let v: u32 = match read_number(s, from, to) {
        Some(v) => v,
        None => {
            return None;
        },
    };
    if v > 65535 {
        return None;
    }
    Some(v as u16)
}

/// In a string that spells an endpoint, the colon stands exactly at
/// the witness position `c` and the dots exactly at `i`, `j`, `k`;
/// every other byte is a digit.
pub proof fn lemma_endpoint_chars(s: Seq<u8>, e: Ipv4Endpoint, i: int, j: int, k: int, c: int)
    requires
        spells_endpoint_at(s, e, i, j, k, c),
    ensures
        forall|p: int| 0 <= p < s.len() ==> (((#[trigger] s[p]) == COLON <==> p == c) && (s[p]
            == DOT <==> (p == i || p == j || p == k))),
{
    assert forall|p: int| 0 <= p < s.len() implies (((#[trigger] s[p]) == COLON <==> p == c) && (
    s[p] == DOT <==> (p == i || p == j || p == k))) by {
        if p < i {
            assert(s.subrange(0, i)[p] == s[p]);
            assert(is_digit(s[p]));
        } else if p == i {
        } else if p < j {
            assert(s.subrange(i + 1, j)[p - (i + 1)] == s[p]);
            assert(is_digit(s[p]));
        } else if p == j {
        } else if p < k {
            assert(s.subrange(j + 1, k)[p - (j + 1)] == s[p]);
            assert(is_digit(s[p]));
        } else if p == k {
        } else if p < c {
            assert(s.subrange(k + 1, c)[p - (k + 1)] == s[p]);
            assert(is_digit(s[p]));
        } else if p == c {
        } else {
            assert(s.subrange(c + 1, s.len() as int)[p - (c + 1)] == s[p]);
            assert(is_digit(s[p]));
        }
    }
}

/// Parses the configured server address. Returns the endpoint the
/// string spells, or `AddressParse` exactly when the string is not a
/// well-formed IPv4 `host:port`.
pub fn parse_endpoint(s: &[u8]) -> (r: Result<Ipv4Endpoint, ProxyError>)
    ensures
        match r {
            Ok(e) => spells_endpoint(s@, e),
            Err(err) => err == ProxyError::AddressParse && !valid_endpoint(s@),
        },
{
    let n = s.len();
    let colon: usize = match find_byte(s, 0, n, COLON) {
        Some(p) => p,
        None => {
            proof {
                if valid_endpoint(s@) {
                    let e = choose|e: Ipv4Endpoint| spells_endpoint(s@, e);
                    let (i2, j2, k2, c2): (int, int, int, int) = choose|i2: int, j2: int, k2: int, c2: int|
                        spells_endpoint_at(s@, e, i2, j2, k2, c2);
                    assert(s@[c2] == COLON);
                    assert(false);
                }
            }
            return Err(ProxyError::AddressParse);
        },
    };
    let dot1: usize = match find_byte(s, 0, colon, DOT) {
        Some(p) => p,
        None => {
            proof {
                if valid_endpoint(s@) {
                    let e = choose|e: Ipv4Endpoint| spells_endpoint(s@, e);
                    let (i2, j2, k2, c2): (int, int, int, int) = choose|i2: int, j2: int, k2: int, c2: int|
                        spells_endpoint_at(s@, e, i2, j2, k2, c2);
                    lemma_endpoint_chars(s@, e, i2, j2, k2, c2);
                    assert(c2 == colon as int);
                    assert(s@[i2] == DOT && i2 < colon as int && 0 <= i2);
                    assert(false);
                }
            }
            return Err(ProxyError::AddressParse);
        },
    };
    let dot2: usize = match find_byte(s, dot1 + 1, colon, DOT) {
        Some(p) => p,
        None => {
            proof {
                if valid_endpoint(s@) {
                    let e = choose|e: Ipv4Endpoint| spells_endpoint(s@, e);
                    let (i2, j2, k2, c2): (int, int, int, int) = choose|i2: int, j2: int, k2: int, c2: int|
                        spells_endpoint_at(s@, e, i2, j2, k2, c2);
                    lemma_endpoint_chars(s@, e, i2, j2, k2, c2);
                    assert(c2 == colon as int);
                    assert(i2 == dot1 as int);
                    assert(s@[j2] == DOT && (dot1 as int) < j2 && j2 < (colon as int));
                    assert(false);
                }
            }
            return Err(ProxyError::AddressParse);
        },
    };
    let dot3: usize = match find_byte(s, dot2 + 1, colon, DOT) {
        Some(p) => p,
        None => {
            proof {
                if valid_endpoint(s@) {
                    let e = choose|e: Ipv4Endpoint| spells_endpoint(s@, e);
                    let (i2, j2, k2, c2): (int, int, int, int) = choose|i2: int, j2: int, k2: int, c2: int|
                        spells_endpoint_at(s@, e, i2, j2, k2, c2);
                    lemma_endpoint_chars(s@, e, i2, j2, k2, c2);
                    assert(c2 == colon as int);
                    assert(i2 == dot1 as int);
                    assert(j2 == dot2 as int);
                    assert(s@[k2] == DOT && (dot2 as int) < k2 && k2 < (colon as int));
                    assert(false);
                }
            }
            return Err(ProxyError::AddressParse);
        },
    };
    if let Some(extra) = find_byte(s, dot3 + 1, colon, DOT) {
        proof {
            if valid_endpoint(s@) {
                let e = choose|e: Ipv4Endpoint| spells_endpoint(s@, e);
                let (i2, j2, k2, c2): (int, int, int, int) = choose|i2: int, j2: int, k2: int, c2: int|
                    spells_endpoint_at(s@, e, i2, j2, k2, c2);
                lemma_endpoint_chars(s@, e, i2, j2, k2, c2);
                assert(c2 == colon as int);
                assert(i2 == dot1 as int);
                assert(j2 == dot2 as int);
                assert(k2 == dot3 as int);
                assert(s@[extra as int] == DOT && (dot3 as int) < (extra as int));
                assert(false);
            }
        }
        return Err(ProxyError::AddressParse);
    }
    let oa: u8 = match check_octet(s, 0, dot1) {
        Some(v) => v,
        None => {
            proof {
                if valid_endpoint(s@) {
                    let e = choose|e: Ipv4Endpoint| spells_endpoint(s@, e);
                    let (i2, j2, k2, c2): (int, int, int, int) = choose|i2: int, j2: int, k2: int, c2: int|
                        spells_endpoint_at(s@, e, i2, j2, k2, c2);
                    lemma_endpoint_chars(s@, e, i2, j2, k2, c2);
                    assert(i2 == dot1 as int);
                    assert(false);
                }
            }
            return Err(ProxyError::AddressParse);
        },
    };
    let ob: u8 = match check_octet(s, dot1 + 1, dot2) {
        Some(v) => v,
        None => {
            proof {
                if valid_endpoint(s@) {
                    let e = choose|e: Ipv4Endpoint| spells_endpoint(s@, e);
                    let (i2, j2, k2, c2): (int, int, int, int) = choose|i2: int, j2: int, k2: int, c2: int|
                        spells_endpoint_at(s@, e, i2, j2, k2, c2);
                    lemma_endpoint_chars(s@, e, i2, j2, k2, c2);
                    assert(i2 == dot1 as int);
                    assert(j2 == dot2 as int);
                    assert(false);
                }
            }
            return Err(ProxyError::AddressParse);
        },
    };
    let oc: u8 = match check_octet(s, dot2 + 1, dot3) {
        Some(v) => v,
        None => {
            proof {
                if valid_endpoint(s@) {
                    let e = choose|e: Ipv4Endpoint| spells_endpoint(s@, e);
                    let (i2, j2, k2, c2): (int, int, int, int) = choose|i2: int, j2: int, k2: int, c2: int|
                        spells_endpoint_at(s@, e, i2, j2, k2, c2);
                    lemma_endpoint_chars(s@, e, i2, j2, k2, c2);
                    assert(j2 == dot2 as int);
                    assert(k2 == dot3 as int);
                    assert(false);
                }
            }
            return Err(ProxyError::AddressParse);
        },
    };
    let od: u8 = match check_octet(s, dot3 + 1, colon) {
        Some(v) => v,
        None => {
            proof {
                if valid_endpoint(s@) {
                    let e = choose|e: Ipv4Endpoint| spells_endpoint(s@, e);
                    let (i2, j2, k2, c2): (int, int, int, int) = choose|i2: int, j2: int, k2: int, c2: int|
                        spells_endpoint_at(s@, e, i2, j2, k2, c2);
                    lemma_endpoint_chars(s@, e, i2, j2, k2, c2);
                    assert(k2 == dot3 as int);
                    assert(c2 == colon as int);
                    assert(false);
                }
            }
            return Err(ProxyError::AddressParse);
        },
    };
    let port: u16 = match check_port(s, colon + 1, n) {
        Some(v) => v,
        None => {
            proof {
                if valid_endpoint(s@) {
                    let e = choose|e: Ipv4Endpoint| spells_endpoint(s@, e);
                    let (i2, j2, k2, c2): (int, int, int, int) = choose|i2: int, j2: int, k2: int, c2: int|
                        spells_endpoint_at(s@, e, i2, j2, k2, c2);
                    lemma_endpoint_chars(s@, e, i2, j2, k2, c2);
                    assert(c2 == colon as int);
                    assert(false);
                }
            }
            return Err(ProxyError::AddressParse);
        },
    };
    let ep = Ipv4Endpoint { a: oa, b: ob, c: oc, d: od, port };
    proof {
        assert(spells_endpoint_at(s@, ep, dot1 as int, dot2 as int, dot3 as int, colon as int));
        assert(spells_endpoint(s@, ep));
        assert(valid_endpoint(s@));
    }
    Ok(ep)
}

/// A string spells at most one endpoint: the text determines the
/// split and with it the four octets and the port. Together with the
/// renderer's contract this gives the round trip — the canonical
/// text of `e` parses back to exactly `e`.
pub proof fn lemma_endpoint_unique(s: Seq<u8>, e1: Ipv4Endpoint, e2: Ipv4Endpoint)
    requires
        spells_endpoint(s, e1),
        spells_endpoint(s, e2),
    ensures
        e1 == e2,
{
    let (i1, j1, k1, c1): (int, int, int, int) = choose|i1: int, j1: int, k1: int, c1: int|
        spells_endpoint_at(s, e1, i1, j1, k1, c1);
    let (i2, j2, k2, c2): (int, int, int, int) = choose|i2: int, j2: int, k2: int, c2: int|
        spells_endpoint_at(s, e2, i2, j2, k2, c2);
    lemma_endpoint_chars(s, e1, i1, j1, k1, c1);
    lemma_endpoint_chars(s, e2, i2, j2, k2, c2);
    // Both witnesses mark the same colon and the same three dots.
    assert(s[c2] == COLON && s[i2] == DOT && s[j2] == DOT && s[k2] == DOT);
    assert(s[c1] == COLON && s[i1] == DOT && s[j1] == DOT && s[k1] == DOT);
    assert(c1 == c2);
    assert(i1 == i2 && j1 == j2 && k1 == k2);
    assert(e1.a as nat == e2.a as nat);
    assert(e1.b as nat == e2.b as nat);
    assert(e1.c as nat == e2.c as nat);
    assert(e1.d as nat == e2.d as nat);
    assert(e1.port as nat == e2.port as nat);
}

/// A value whose digit string has more digits than `cap` would reach
/// ten to the `cap`; so a value below that bound has at most `cap`
/// digits.
proof fn lemma_digit_count(len: nat, v: nat, cap: nat)
    requires
        1 <= len,
        len > 1 ==> pow10((len - 1) as nat) <= v,
        v < pow10(cap),
        1 <= cap,
    ensures
        len <= cap,
{
    if len > cap {
        lemma_pow10_mono(cap, (len - 1) as nat);
    }
}

/// Writes `v` in decimal, most significant digit first, with no
/// leading zero. The length bounds say the digit count is exactly
/// what the value calls for.
fn render_decimal(v: u32) -> (r: Vec<u8>)
    ensures
        all_digits(r@),
        dec_val(r@) == v as nat,
        1 <= r@.len(),
        r@.len() > 1 ==> r@[0] != 48,
        (v as nat) < pow10(r@.len()),
        r@.len() > 1 ==> pow10((r@.len() - 1) as nat) <= v as nat,
    decreases v,
{
    if v < 10 {
        let mut r: Vec<u8> = Vec::new();
        r.push(48 + v as u8);
        proof {
            reveal_with_fuel(dec_val, 2);
            assert(r@.drop_last() =~= Seq::<u8>::empty());
            reveal_with_fuel(pow10, 2);
        }
        r
    } else {
        proof {
            vstd::arithmetic::div_mod::lemma_div_is_strictly_smaller(v as int, 10);
            vstd::arithmetic::div_mod::lemma_fundamental_div_mod(v as int, 10);
            vstd::arithmetic::div_mod::lemma_mod_bound(v as int, 10);
            vstd::arithmetic::div_mod::lemma_div_is_ordered(10, v as int, 10);
        }
        let mut r = render_decimal(v / 10);
        let ghost prefix = r@;
        r.push(48 + (v % 10) as u8);
        proof {
            assert(r@.drop_last() =~= prefix);
            assert(r@.last() == 48 + (v as int % 10));
            assert(dec_val(r@) == dec_val(prefix) * 10 + digit_val(r@.last()));
            assert(r@[0] == prefix[0]);
            // One more digit raises the bounds by one power of ten.
            assert(pow10(r@.len()) == 10 * pow10(prefix.len()));
            assert((v as nat) < pow10(r@.len()));
            if prefix.len() == 1 {
                reveal_with_fuel(pow10, 2);
                assert(pow10((r@.len() - 1) as nat) <= v as nat);
            } else {
                assert(pow10(prefix.len()) == 10 * pow10((prefix.len() - 1) as nat));
                assert(pow10((r@.len() - 1) as nat) <= v as nat);
            }
        }
        r
    }
}

/// Writes the canonical text of `e`: the four octets without leading
/// zeros, dots, a colon, the port. What comes out spells `e`, so in
/// particular it parses back to `e`.
pub fn render_endpoint(e: Ipv4Endpoint) -> (r: Vec<u8>)
    ensures
        spells_endpoint(r@, e),
        valid_endpoint(r@),
{
    proof {
        reveal_with_fuel(pow10, 6);
    }
    let mut r = render_decimal(e.a as u32);
    proof {
        lemma_digit_count(r@.len(), e.a as nat, 3);
    }
    let ghost seq_a = r@;
    let dot1 = r.len();
    r.push(DOT);

    let mut part = render_decimal(e.b as u32);
    proof {
        lemma_digit_count(part@.len(), e.b as nat, 3);
    }
    let ghost seq_b = part@;
    r.append(&mut part);
    let dot2 = r.len();
    r.push(DOT);

    let mut part = render_decimal(e.c as u32);
    proof {
        lemma_digit_count(part@.len(), e.c as nat, 3);
    }
    let ghost seq_c = part@;
    r.append(&mut part);
    let dot3 = r.len();
    r.push(DOT);

    let mut part = render_decimal(e.d as u32);
    proof {
        lemma_digit_count(part@.len(), e.d as nat, 3);
    }
    let ghost seq_d = part@;
    r.append(&mut part);
    let colon = r.len();
    r.push(COLON);

    let mut part = render_decimal(e.port as u32);
    proof {
        lemma_digit_count(part@.len(), e.port as nat, 5);
    }
    let ghost seq_p = part@;
    r.append(&mut part);

    proof {
        assert(r@.subrange(0, dot1 as int) =~= seq_a);
        assert(r@.subrange(dot1 + 1, dot2 as int) =~= seq_b);
        assert(r@.subrange(dot2 + 1, dot3 as int) =~= seq_c);
        assert(r@.subrange(dot3 + 1, colon as int) =~= seq_d);
        assert(r@.subrange(colon + 1, r@.len() as int) =~= seq_p);
        assert(spells_endpoint_at(r@, e, dot1 as int, dot2 as int, dot3 as int, colon as int));
        assert(spells_endpoint(r@, e));
    }
    r
}

} // verus!
