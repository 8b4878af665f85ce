//! Dotted-decimal IPv4 addresses and the private networks of RFC 1918.

use vstd::prelude::*;
use crate::text::{chars_of, decimal, decimal_text, digit_char, same_text, starts_with};

verus! {

/// Whether `c` is an ASCII decimal digit.
pub open spec fn is_digit_char(c: char) -> bool {
    '0' <= c && c <= '9'
}

/// The end of the run of digits that starts at `i`.
pub open spec fn digits_end(s: Seq<char>, i: int) -> int
    decreases s.len() - i,
{
    if 0 <= i < s.len() && is_digit_char(s[i]) {
        digits_end(s, i + 1)
    } else {
        i
    }
}

/// The number that the digits `s[i..j]` denote.
pub open spec fn digits_value(s: Seq<char>, i: int, j: int) -> int
    decreases j - i,
{
    if j <= i {
        0
    } else {
        digits_value(s, i, j - 1) * 10 + (s[j - 1] as int - 48)
    }
}

/// The octet written at `i`, of one to three digits and at most 255, and
/// where it ends.
pub open spec fn octet_at(s: Seq<char>, i: int) -> Option<(u8, int)> {
    let j = digits_end(s, i);
    if j == i || j - i > 3 || digits_value(s, i, j) > 255 {
        None
    } else {
        Some((digits_value(s, i, j) as u8, j))
    }
}

/// Whether `s` holds a `.` at `i`.
pub open spec fn dot_at(s: Seq<char>, i: int) -> bool {
    0 <= i < s.len() && s[i] == '.'
}

/// Reads four octets separated by dots that make up all of `s`.
pub open spec fn scan_ipv4(s: Seq<char>) -> Option<(u8, u8, u8, u8)> {
    match octet_at(s, 0) {
        Some((a, i1)) => if !dot_at(s, i1) {
            None
        } else {
            match octet_at(s, i1 + 1) {
                Some((b, i2)) => if !dot_at(s, i2) {
                    None
                } else {
                    match octet_at(s, i2 + 1) {
                        Some((c, i3)) => if !dot_at(s, i3) {
                            None
                        } else {
                            match octet_at(s, i3 + 1) {
                                Some((d, i4)) => if i4 == s.len() {
                                    Some((a, b, c, d))
                                } else {
                                    None
                                },
                                None => None,
                            }
                        },
                        None => None,
                    }
                },
                None => None,
            }
        },
        None => None,
    }
}

/// The dotted-decimal text of an IPv4 address, as `Ipv4Addr` displays it.
pub open spec fn ipv4_text(q: (u8, u8, u8, u8)) -> Seq<char> {
    decimal_text(q.0 as nat) + seq!['.'] + decimal_text(q.1 as nat) + seq!['.'] + decimal_text(
        q.2 as nat,
    ) + seq!['.'] + decimal_text(q.3 as nat)
}

/// The IPv4 address whose dotted-decimal text is exactly `s`, if any.
pub open spec fn ipv4_octets(s: Seq<char>) -> Option<(u8, u8, u8, u8)> {
    match scan_ipv4(s) {
        Some(q) => if s == ipv4_text(q) {
            Some(q)
        } else {
            None
        },
        None => None,
    }
}

/// Whether an address lies in 10.0.0.0/8, 172.16.0.0/12 or 192.168.0.0/16.
pub open spec fn is_private_ipv4(q: (u8, u8, u8, u8)) -> bool {
    ||| q.0 == 10
    ||| q.0 == 172 && 16 <= q.1 && q.1 <= 31
    ||| q.0 == 192 && q.1 == 168
}

/// The digits of a decimal rendering, and how many there are.
proof fn lemma_decimal_digits(n: nat)
    ensures
        forall|k: int| 0 <= k < decimal_text(n).len() ==> is_digit_char(#[trigger] decimal_text(n)[k]),
        decimal_text(n).len() >= 1,
        n < 1000 ==> decimal_text(n).len() <= 3,
        n < 100 ==> decimal_text(n).len() <= 2,
        n < 10 ==> decimal_text(n).len() == 1,
    decreases n,
{
    if n >= 10 {
        lemma_decimal_digits(n / 10);
        let t = decimal_text(n);
        assert forall|k: int| 0 <= k < t.len() implies is_digit_char(#[trigger] t[k]) by {
            if k < t.len() - 1 {
                assert(t[k] == decimal_text(n / 10)[k]);
            }
        }
    }
}

/// Where a run of digits that is followed by a non-digit ends.
proof fn lemma_digits_end(s: Seq<char>, i: int, j: int)
    requires
        0 <= i <= j <= s.len(),
        forall|k: int| i <= k < j ==> is_digit_char(#[trigger] s[k]),
        j == s.len() || !is_digit_char(s[j]),
    ensures
        digits_end(s, i) == j,
    decreases j - i,
{
    if i < j {
        lemma_digits_end(s, i + 1, j);
    }
}

/// The digits of a decimal rendering denote the number rendered.
proof fn lemma_digits_value(s: Seq<char>, i: int, n: nat)
    requires
        0 <= i,
        i + decimal_text(n).len() <= s.len(),
        s.subrange(i, i + decimal_text(n).len()) == decimal_text(n),
    ensures
        digits_value(s, i, i + decimal_text(n).len()) == n,
    decreases n,
{
    let t = decimal_text(n);
    let j = i + t.len();
    assert(s[j - 1] == t[t.len() - 1]);
    assert(t[t.len() - 1] == digit_char(n % 10));
    assert(digit_char(n % 10) as int == n % 10 + 48);
    assert(digits_value(s, i, j) == digits_value(s, i, j - 1) * 10 + (n % 10));
    if n >= 10 {
        let u = decimal_text(n / 10);
        assert(s.subrange(i, i + u.len()) =~= u) by {
            assert forall|k: int| 0 <= k < u.len() implies s.subrange(i, i + u.len())[k] == u[k] by {
                assert(s[i + k] == t[k]);
            }
        }
        lemma_digits_value(s, i, n / 10);
        assert((n / 10) * 10 + n % 10 == n);
    }
}

/// The text of an octet is read back as that octet.
proof fn lemma_octet_at_text(s: Seq<char>, i: int, x: u8)
    requires
        0 <= i,
        i + decimal_text(x as nat).len() <= s.len(),
        s.subrange(i, i + decimal_text(x as nat).len()) == decimal_text(x as nat),
        i + decimal_text(x as nat).len() == s.len() || s[i + decimal_text(x as nat).len()] == '.',
    ensures
        octet_at(s, i) == Some((x, i + decimal_text(x as nat).len())),
{
    let t = decimal_text(x as nat);
    lemma_decimal_digits(x as nat);
    assert forall|k: int| i <= k < i + t.len() implies is_digit_char(#[trigger] s[k]) by {
        assert(s[k] == t[k - i]);
    }
    lemma_digits_end(s, i, i + t.len());
    lemma_digits_value(s, i, x as nat);
}

/// Reading the dotted-decimal text of an address gives the address back.
pub proof fn lemma_ipv4_text_read_back(q: (u8, u8, u8, u8))
    ensures
        ipv4_octets(ipv4_text(q)) == Some(q),
{
    let a = decimal_text(q.0 as nat);
    let b = decimal_text(q.1 as nat);
    let c = decimal_text(q.2 as nat);
    let d = decimal_text(q.3 as nat);
    let s = ipv4_text(q);
    let i1 = a.len() as int;
    let i2 = i1 + 1 + b.len();
    let i3 = i2 + 1 + c.len();
    let i4 = i3 + 1 + d.len();
    assert(s.len() == i4);
    assert(s.subrange(0, i1) =~= a);
    assert(s[i1] == '.');
    assert(s.subrange(i1 + 1, i2) =~= b);
    assert(s[i2] == '.');
    assert(s.subrange(i2 + 1, i3) =~= c);
    assert(s[i3] == '.');
    assert(s.subrange(i3 + 1, i4) =~= d);
    lemma_octet_at_text(s, 0, q.0);
    lemma_octet_at_text(s, i1 + 1, q.1);
    lemma_octet_at_text(s, i2 + 1, q.2);
    lemma_octet_at_text(s, i3 + 1, q.3);
    assert(scan_ipv4(s) == Some(q));
}

/// The text of no IPv4 address holds a `:`, so no IPv6 text reads as one.
pub proof fn lemma_ipv4_text_has_no_colon(s: Seq<char>)
    requires
        s.contains(':'),
    ensures
        ipv4_octets(s) is None,
{
    if let Some(q) = ipv4_octets(s) {
        lemma_decimal_digits(q.0 as nat);
        lemma_decimal_digits(q.1 as nat);
        lemma_decimal_digits(q.2 as nat);
        lemma_decimal_digits(q.3 as nat);
        let k = choose|k: int| 0 <= k < s.len() && s[k] == ':';
        let a = decimal_text(q.0 as nat);
        let b = decimal_text(q.1 as nat);
        let c = decimal_text(q.2 as nat);
        let d = decimal_text(q.3 as nat);
        let i1 = a.len() as int;
        let i2 = i1 + 1 + b.len();
        let i3 = i2 + 1 + c.len();
        if k < i1 {
            assert(s[k] == a[k]);
        } else if k == i1 || k == i2 || k == i3 {
        } else if k < i2 {
            assert(s[k] == b[k - i1 - 1]);
        } else if k < i3 {
            assert(s[k] == c[k - i2 - 1]);
        } else {
            assert(s[k] == d[k - i3 - 1]);
        }
    }
}

/// An octet's text followed by a dot, as it begins a dotted-decimal address.
pub open spec fn octet_prefix(n: nat) -> Seq<char> {
    decimal_text(n) + seq!['.']
}

/// Whether `host` begins with one of the eighteen private-network prefixes:
/// `10.`, `192.168.`, or `172.16.` to `172.31.`.
pub open spec fn has_private_prefix(host: Seq<char>) -> bool {
    ||| octet_prefix(10).is_prefix_of(host)
    ||| (octet_prefix(192) + octet_prefix(168)).is_prefix_of(host)
    ||| exists|b: nat| 16 <= b <= 31 && #[trigger] (octet_prefix(172) + octet_prefix(b)).is_prefix_of(host)
}

/// Two runs of decimal digits that start at the same place and end at a dot
/// denote the same number.
proof fn lemma_same_digit_run(h: Seq<char>, i: int, n: nat, m: nat)
    requires
        0 <= i,
        i + decimal_text(n).len() < h.len(),
        i + decimal_text(m).len() < h.len(),
        h.subrange(i, i + decimal_text(n).len()) == decimal_text(n),
        h.subrange(i, i + decimal_text(m).len()) == decimal_text(m),
        h[i + decimal_text(n).len()] == '.',
        h[i + decimal_text(m).len()] == '.',
    ensures
        n == m,
{
    let tn = decimal_text(n);
    let tm = decimal_text(m);
    lemma_decimal_digits(n);
    lemma_decimal_digits(m);
    if tn.len() < tm.len() {
        assert(h[i + tn.len()] == tm[tn.len() as int]);
    }
    if tm.len() < tn.len() {
        assert(h[i + tm.len()] == tn[tm.len() as int]);
    }
    lemma_digits_value(h, i, n);
    lemma_digits_value(h, i, m);
}

/// Where the octets of an address's text lie.
proof fn lemma_ipv4_text_layout(q: (u8, u8, u8, u8))
    ensures
        ({
            let h = ipv4_text(q);
            let a = decimal_text(q.0 as nat);
            let b = decimal_text(q.1 as nat);
            let i1 = a.len() as int;
            &&& h.subrange(0, i1) == a
            &&& h[i1] == '.'
            &&& h.subrange(i1 + 1, i1 + 1 + b.len()) == b
            &&& h[i1 + 1 + b.len()] == '.'
            &&& i1 + 1 + b.len() < h.len()
        }),
{
    let h = ipv4_text(q);
    let a = decimal_text(q.0 as nat);
    let b = decimal_text(q.1 as nat);
    let i1 = a.len() as int;
    assert(h.subrange(0, i1) =~= a);
    assert(h.subrange(i1 + 1, i1 + 1 + b.len()) =~= b);
}

/// Among addresses' texts, those with a private-network prefix are exactly
/// the texts of private addresses.
pub proof fn lemma_private_prefix_of_address(q: (u8, u8, u8, u8))
    ensures
        has_private_prefix(ipv4_text(q)) <==> is_private_ipv4(q),
{
    let h = ipv4_text(q);
    let a = decimal_text(q.0 as nat);
    let b = decimal_text(q.1 as nat);
    let i1 = a.len() as int;
    lemma_ipv4_text_layout(q);
    lemma_decimal_digits(10);
    lemma_decimal_digits(168);
    lemma_decimal_digits(172);
    lemma_decimal_digits(192);
    if is_private_ipv4(q) {
        if q.0 == 10 {
            assert(h.subrange(0, octet_prefix(10).len() as int) =~= octet_prefix(10));
        } else if q.0 == 172 {
            let p = octet_prefix(172) + octet_prefix(q.1 as nat);
            assert(h.subrange(0, p.len() as int) =~= p);
            assert(p.is_prefix_of(h));
        } else {
            let p = octet_prefix(192) + octet_prefix(168);
            assert(h.subrange(0, p.len() as int) =~= p);
        }
    }
    if has_private_prefix(h) {
        if octet_prefix(10).is_prefix_of(h) {
            let t = decimal_text(10);
            assert(h.subrange(0, t.len() as int) =~= t);
            assert(h[t.len() as int] == octet_prefix(10)[t.len() as int]);
            lemma_same_digit_run(h, 0, q.0 as nat, 10);
        } else if (octet_prefix(192) + octet_prefix(168)).is_prefix_of(h) {
            let p = octet_prefix(192) + octet_prefix(168);
            let t = decimal_text(192);
            let u = decimal_text(168);
            assert(h.subrange(0, t.len() as int) =~= t);
            assert(h[t.len() as int] == p[t.len() as int]);
            lemma_same_digit_run(h, 0, q.0 as nat, 192);
            assert(i1 == t.len());
            assert(p.len() == t.len() + 1 + u.len() + 1);
            assert(i1 + 1 + u.len() < h.len());
            assert forall|k: int| 0 <= k < u.len() implies #[trigger] h.subrange(i1 + 1, i1 + 1 + u.len())[k] == u[k] by {
                assert(h.subrange(0, p.len() as int)[i1 + 1 + k] == p[i1 + 1 + k]);
            }
            assert(h.subrange(i1 + 1, i1 + 1 + u.len()) =~= u);
            assert(h.subrange(0, p.len() as int)[i1 + 1 + u.len()] == p[i1 + 1 + u.len()]);
            lemma_same_digit_run(h, i1 + 1, q.1 as nat, 168);
        } else {
            let c = choose|c: nat| 16 <= c <= 31 && #[trigger] (octet_prefix(172) + octet_prefix(c)).is_prefix_of(h);
            let p = octet_prefix(172) + octet_prefix(c);
            let t = decimal_text(172);
            let u = decimal_text(c);
            lemma_decimal_digits(c);
            assert(h.subrange(0, t.len() as int) =~= t);
            assert(h[t.len() as int] == p[t.len() as int]);
            lemma_same_digit_run(h, 0, q.0 as nat, 172);
            assert(i1 == t.len());
            assert(p.len() == t.len() + 1 + u.len() + 1);
            assert(i1 + 1 + u.len() < h.len());
            assert forall|k: int| 0 <= k < u.len() implies #[trigger] h.subrange(i1 + 1, i1 + 1 + u.len())[k] == u[k] by {
                assert(h.subrange(0, p.len() as int)[i1 + 1 + k] == p[i1 + 1 + k]);
            }
            assert(h.subrange(i1 + 1, i1 + 1 + u.len()) =~= u);
            assert(h.subrange(0, p.len() as int)[i1 + 1 + u.len()] == p[i1 + 1 + u.len()]);
            lemma_same_digit_run(h, i1 + 1, q.1 as nat, c);
        }
    }
}

/// Whether `host` begins with one of the eighteen private-network prefixes.
pub fn has_private_prefix_text(host: &str) -> (b: bool)
    ensures
        b == has_private_prefix(host@),
{
    proof {
        reveal_strlit(".");
    }
    let mut ten = decimal(10);
    ten.append(".");
    if starts_with(host, ten.as_str()) {
        return true;
    }
    let mut p192 = decimal(192);
    p192.append(".");
    p192.append(decimal(168).as_str());
    p192.append(".");
    proof {
        assert(p192@ =~= octet_prefix(192) + octet_prefix(168));
    }
    if starts_with(host, p192.as_str()) {
        return true;
    }
    let mut b: u64 = 16;
    while b <= 31
        invariant
            16 <= b <= 32,
            "."@ == seq!['.'],
            !octet_prefix(10).is_prefix_of(host@),
            !(octet_prefix(192) + octet_prefix(168)).is_prefix_of(host@),
            forall|c: nat| 16 <= c < b ==> !(#[trigger] (octet_prefix(172) + octet_prefix(c)).is_prefix_of(host@)),
        decreases 32 - b,
    {
        let mut p = decimal(172);
        p.append(".");
        p.append(decimal(b).as_str());
        p.append(".");
        proof {
            assert(p@ =~= octet_prefix(172) + octet_prefix(b as nat));
        }
        if starts_with(host, p.as_str()) {
            return true;
        }
        b += 1;
    }
    false
}

/// Reads the octet written at `i` of `v`.
fn read_octet(v: &Vec<char>, i: usize) -> (r: Option<(u8, usize)>)
    requires
        i <= v@.len(),
    ensures
        r matches Some((o, j)) ==> octet_at(v@, i as int) == Some((o, j as int)),
        r is None ==> octet_at(v@, i as int) is None,
{
    let ghost s = v@;
    let n = v.len();
    let mut j = i;
    while j < n && '0' <= v[j] && v[j] <= '9'
        invariant
            s == v@,
            n == s.len(),
            i <= j <= n,
            digits_end(s, i as int) == digits_end(s, j as int),
            forall|k: int| i <= k < j ==> is_digit_char(#[trigger] s[k]),
        decreases n - j,
    {
        j += 1;
    }
    if j == i || j - i > 3 {
        return None;
    }
    let mut val: u32 = 0;
    let mut k = i;
    while k < j
        invariant
            s == v@,
            i <= k <= j <= n,
            n == s.len(),
            j - i <= 3,
            forall|m: int| i <= m < j ==> is_digit_char(#[trigger] s[m]),
            val == digits_value(s, i as int, k as int),
            k - i == 0 ==> val == 0,
            k - i == 1 ==> val <= 9,
            k - i == 2 ==> val <= 99,
            k - i == 3 ==> val <= 999,
        decreases j - k,
    {
        let digit = v[k] as u32 - 48;
        assert(is_digit_char(s[k as int]));
        val = val * 10 + digit;
        k += 1;
    }
    if val > 255 {
        return None;
    }
    Some((val as u8, j))
}

/// The IPv4 address whose dotted-decimal text is exactly `host`, if any.
pub fn parse_ipv4(host: &str) -> (r: Option<(u8, u8, u8, u8)>)
    ensures
        r == ipv4_octets(host@),
{
    let v = chars_of(host);
    let n = v.len();
    let (a, i1) = match read_octet(&v, 0) {
        Some(p) => p,
        None => return None,
    };
    if i1 >= n || v[i1] != '.' {
        return None;
    }
    let (b, i2) = match read_octet(&v, i1 + 1) {
        Some(p) => p,
        None => return None,
    };
    if i2 >= n || v[i2] != '.' {
        return None;
    }
    let (c, i3) = match read_octet(&v, i2 + 1) {
        Some(p) => p,
        None => return None,
    };
    if i3 >= n || v[i3] != '.' {
        return None;
    }
    let (d, i4) = match read_octet(&v, i3 + 1) {
        Some(p) => p,
        None => return None,
    };
    if i4 != n {
        return None;
    }
    let q = (a, b, c, d);
    assert(scan_ipv4(host@) == Some(q));
    let text = render_ipv4(q);
    if same_text(text.as_str(), host) {
        Some(q)
    } else {
        None
    }
}

/// The dotted-decimal text of an IPv4 address.
pub fn render_ipv4(q: (u8, u8, u8, u8)) -> (s: String)
    ensures
        s@ == ipv4_text(q),
{
    proof {
        reveal_strlit(".");
    }
    let mut s = decimal(q.0 as u64);
    s.append(".");
    s.append(decimal(q.1 as u64).as_str());
    s.append(".");
    s.append(decimal(q.2 as u64).as_str());
    s.append(".");
    s.append(decimal(q.3 as u64).as_str());
    s
}

/// Whether an address lies in one of the private networks of RFC 1918.
pub fn is_private(q: (u8, u8, u8, u8)) -> (b: bool)
    ensures
        b == is_private_ipv4(q),
{
    q.0 == 10 || (q.0 == 172 && 16 <= q.1 && q.1 <= 31) || (q.0 == 192 && q.1 == 168)
}

} // verus!
