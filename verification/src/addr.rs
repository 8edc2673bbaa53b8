//! Socket-address text: joining an IP text and a port text into the
//! `ip:port` form the servers are given, and the resolver's own account
//! of the IPv4 literal form of that text.
//!
//! An `a.b.c.d:port` literal is resolved here, with the grammar written
//! out as spec functions and the parser proved against it. Addresses in
//! other forms (IPv6 literals, host names) are resolved by the runtime at
//! the process edge and handed in as plain [`SockAddr`] values.

use vstd::prelude::*;
use vstd::string::StrSliceExecFns;
use vstd::string::StringExecFns;
use crate::decimal::dec_value;
use crate::decimal::is_dec_digit;
use crate::decimal::is_octet_text;
use crate::decimal::is_port_text;
use crate::decimal::lemma_dec_value_nonneg;
use crate::decimal::parse_octet;
use crate::decimal::parse_port;

verus! {

/// A socket address as plain values: either an IPv4 address and port, or
/// an IPv6 address (eight 16-bit segments), port, flow label and scope.
#[derive(Clone, Copy, PartialEq, Eq, Structural, Debug)]
pub enum SockAddr {
    V4 { a: u8, b: u8, c: u8, d: u8, port: u16 },
    V6 {
        s0: u16,
        s1: u16,
        s2: u16,
        s3: u16,
        s4: u16,
        s5: u16,
        s6: u16,
        s7: u16,
        port: u16,
        flowinfo: u32,
        scope_id: u32,
    },
}

/// Join an IP text and a port text into the `ip:port` form.
///
/// This is the address string handed to the HTTP server, and the string
/// whose parse decides the TFTP bind address.
pub fn ip_port_string(ip: &str, port: &str) -> (r: String)
    ensures
        r@ == ip@ + ":"@ + port@,
{
    let mut s = String::from_str(ip);
    s.append(":");
    s.append(port);
    s
}

/// The four octets of an IPv4 address.
#[derive(Clone, Copy, PartialEq, Eq, Structural, Debug)]
pub struct Ipv4Parts {
    pub a: u8,
    pub b: u8,
    pub c: u8,
    pub d: u8,
}

/// The dots of an IPv4 literal stand at `i < j < k`, and the four pieces
/// between them are octet texts.
pub open spec fn ipv4_split_at(s: Seq<char>, i: int, j: int, k: int) -> bool {
    &&& 0 <= i < j < k < s.len()
    &&& s[i] == '.'
    &&& s[j] == '.'
    &&& s[k] == '.'
    &&& is_octet_text(s.subrange(0, i))
    &&& is_octet_text(s.subrange(i + 1, j))
    &&& is_octet_text(s.subrange(j + 1, k))
    &&& is_octet_text(s.subrange(k + 1, s.len() as int))
}

/// `s` is an IPv4 address literal.
pub open spec fn is_ipv4_text(s: Seq<char>) -> bool {
    exists|i: int, j: int, k: int| ipv4_split_at(s, i, j, k)
}

/// `s` is an IPv4 literal whose octets read `a.b.c.d`.
pub open spec fn ipv4_text_value(s: Seq<char>, a: int, b: int, c: int, d: int) -> bool {
    exists|i: int, j: int, k: int|
        ipv4_split_at(s, i, j, k) && a == dec_value(s.subrange(0, i)) && b == dec_value(
            s.subrange(i + 1, j),
        ) && c == dec_value(s.subrange(j + 1, k)) && d == dec_value(
            s.subrange(k + 1, s.len() as int),
        )
}

/// In a split IPv4 literal, every character off the three dots is a
/// digit.
pub proof fn lemma_split_chars(s: Seq<char>, i: int, j: int, k: int, t: int)
    requires
        ipv4_split_at(s, i, j, k),
        0 <= t < s.len(),
        t != i,
        t != j,
        t != k,
    ensures
        is_dec_digit(s[t]),
{
    if t < i {
        assert(s.subrange(0, i)[t] == s[t]);
        assert(is_dec_digit(s.subrange(0, i)[t]));
    } else if t < j {
        assert(s.subrange(i + 1, j)[t - (i + 1)] == s[t]);
        assert(is_dec_digit(s.subrange(i + 1, j)[t - (i + 1)]));
    } else if t < k {
        assert(s.subrange(j + 1, k)[t - (j + 1)] == s[t]);
        assert(is_dec_digit(s.subrange(j + 1, k)[t - (j + 1)]));
    } else {
        assert(s.subrange(k + 1, s.len() as int)[t - (k + 1)] == s[t]);
        assert(is_dec_digit(s.subrange(k + 1, s.len() as int)[t - (k + 1)]));
    }
}

/// An IPv4 literal splits at only one triple of dot positions, so the
/// octet values it denotes are unique.
pub proof fn lemma_ipv4_split_unique(
    s: Seq<char>,
    i1: int,
    j1: int,
    k1: int,
    i2: int,
    j2: int,
    k2: int,
)
    requires
        ipv4_split_at(s, i1, j1, k1),
        ipv4_split_at(s, i2, j2, k2),
    ensures
        i1 == i2,
        j1 == j2,
        k1 == k2,
{
    assert(!is_dec_digit('.')) by {
        assert('.' as u32 == 46);
    }
    if i2 != i1 && i2 != j1 && i2 != k1 {
        lemma_split_chars(s, i1, j1, k1, i2);
    }
    if j2 != i1 && j2 != j1 && j2 != k1 {
        lemma_split_chars(s, i1, j1, k1, j2);
    }
    if k2 != i1 && k2 != j1 && k2 != k1 {
        lemma_split_chars(s, i1, j1, k1, k2);
    }
    if i1 != i2 && i1 != j2 && i1 != k2 {
        lemma_split_chars(s, i2, j2, k2, i1);
    }
    if j1 != i2 && j1 != j2 && j1 != k2 {
        lemma_split_chars(s, i2, j2, k2, j1);
    }
    if k1 != i2 && k1 != j2 && k1 != k2 {
        lemma_split_chars(s, i2, j2, k2, k1);
    }
}

/// An IPv4 literal denotes one quadruple of octet values.
pub proof fn lemma_ipv4_value_unique(
    s: Seq<char>,
    a1: int,
    b1: int,
    c1: int,
    d1: int,
    a2: int,
    b2: int,
    c2: int,
    d2: int,
)
    requires
        ipv4_text_value(s, a1, b1, c1, d1),
        ipv4_text_value(s, a2, b2, c2, d2),
    ensures
        a1 == a2,
        b1 == b2,
        c1 == c2,
        d1 == d2,
{
    let (i1, j1, k1) = choose|i: int, j: int, k: int|
        ipv4_split_at(s, i, j, k) && a1 == dec_value(s.subrange(0, i)) && b1 == dec_value(
            s.subrange(i + 1, j),
        ) && c1 == dec_value(s.subrange(j + 1, k)) && d1 == dec_value(
            s.subrange(k + 1, s.len() as int),
        );
    let (i2, j2, k2) = choose|i: int, j: int, k: int|
        ipv4_split_at(s, i, j, k) && a2 == dec_value(s.subrange(0, i)) && b2 == dec_value(
            s.subrange(i + 1, j),
        ) && c2 == dec_value(s.subrange(j + 1, k)) && d2 == dec_value(
            s.subrange(k + 1, s.len() as int),
        );
    lemma_ipv4_split_unique(s, i1, j1, k1, i2, j2, k2);
}

/// Every character of an IPv4 literal is a dot or a digit.
pub proof fn lemma_ipv4_chars(s: Seq<char>)
    requires
        is_ipv4_text(s),
    ensures
        forall|t: int| 0 <= t < s.len() ==> (#[trigger] s[t]) == '.' || is_dec_digit(s[t]),
{
    let (i, j, k) = choose|i: int, j: int, k: int| ipv4_split_at(s, i, j, k);
    assert forall|t: int| 0 <= t < s.len() implies (#[trigger] s[t]) == '.' || is_dec_digit(
        s[t],
    ) by {
        if t != i && t != j && t != k {
            lemma_split_chars(s, i, j, k, t);
        }
    }
}

/// Parse an IPv4 address literal: four octet texts joined by dots. The
/// result carries the octet values exactly when the text is such a
/// literal, and nothing otherwise; by [`lemma_ipv4_value_unique`] those
/// values are the one reading of the text.
pub fn parse_ipv4(s: &str) -> (r: Option<Ipv4Parts>)
    ensures
        r is Some <==> is_ipv4_text(s@),
        r matches Some(p) ==> ipv4_text_value(s@, p.a as int, p.b as int, p.c as int, p.d as int),
{
    let n = s.unicode_len();
    let mut dots: Vec<usize> = Vec::new();
    let mut i: usize = 0;
    while i < n
        invariant
            i <= n,
            n == s@.len(),
            forall|t: int|
                0 <= t < i as int && #[trigger] s@[t] == '.' ==> exists|m: int|
                    0 <= m < dots@.len() && #[trigger] dots@[m] as int == t,
            forall|m: int|
                0 <= m < dots@.len() ==> (#[trigger] dots@[m] as int) < i as int
                    && s@[dots@[m] as int] == '.',
            forall|m1: int, m2: int| 0 <= m1 < m2 < dots@.len() ==> dots@[m1] < dots@[m2],
        decreases n - i,
    {
        let ch = s.get_char(i);
        let ghost old_dots = dots@;
        if ch == '.' {
            dots.push(i);
        }
        proof {
            assert forall|t: int|
                0 <= t < i as int + 1 && #[trigger] s@[t] == '.' implies exists|m: int|
                0 <= m < dots@.len() && #[trigger] dots@[m] as int == t by {
                if t < i as int {
                    let m = choose|m: int|
                        0 <= m < old_dots.len() && #[trigger] old_dots[m] as int == t;
                    assert(dots@[m] as int == t);
                } else {
                    assert(dots@[dots@.len() - 1] as int == t);
                }
            }
        }
        i = i + 1;
    }
    proof {
        assert(!is_dec_digit('.')) by {
            assert('.' as u32 == 46);
        }
    }
    if dots.len() != 3 {
        proof {
            if is_ipv4_text(s@) {
                let (x, y, z) = choose|x: int, y: int, z: int| ipv4_split_at(s@, x, y, z);
                assert(s@[x] == '.' && s@[y] == '.' && s@[z] == '.');
                let mx = choose|m: int| 0 <= m < dots@.len() && #[trigger] dots@[m] as int == x;
                let my = choose|m: int| 0 <= m < dots@.len() && #[trigger] dots@[m] as int == y;
                let mz = choose|m: int| 0 <= m < dots@.len() && #[trigger] dots@[m] as int == z;
                assert(dots@.len() >= 3);
                assert forall|m: int| 0 <= m < dots@.len() implies dots@[m] as int == x
                    || dots@[m] as int == y || dots@[m] as int == z by {
                    if dots@[m] as int != x && dots@[m] as int != y && dots@[m] as int != z {
                        lemma_split_chars(s@, x, y, z, dots@[m] as int);
                    }
                }
                if dots@.len() > 3 {
                    assert(dots@[0] < dots@[1] && dots@[1] < dots@[2] && dots@[2] < dots@[3]);
                    assert(dots@[0] as int == x || dots@[0] as int == y || dots@[0] as int == z);
                    assert(dots@[1] as int == x || dots@[1] as int == y || dots@[1] as int == z);
                    assert(dots@[2] as int == x || dots@[2] as int == y || dots@[2] as int == z);
                    assert(dots@[3] as int == x || dots@[3] as int == y || dots@[3] as int == z);
                }
                assert(dots@.len() <= 3);
            }
        }
        return None;
    }
    let di = dots[0];
    let dj = dots[1];
    let dk = dots[2];
    let o1 = parse_octet(s.substring_char(0, di));
    let o2 = parse_octet(s.substring_char(di + 1, dj));
    let o3 = parse_octet(s.substring_char(dj + 1, dk));
    let o4 = parse_octet(s.substring_char(dk + 1, n));
    match (o1, o2, o3, o4) {
        (Some(a), Some(b), Some(c), Some(d)) => {
            proof {
                assert(ipv4_split_at(s@, di as int, dj as int, dk as int));
                lemma_dec_value_nonneg(s@.subrange(0, di as int));
                lemma_dec_value_nonneg(s@.subrange(di as int + 1, dj as int));
                lemma_dec_value_nonneg(s@.subrange(dj as int + 1, dk as int));
                lemma_dec_value_nonneg(s@.subrange(dk as int + 1, s@.len() as int));
            }
            Some(Ipv4Parts { a, b, c, d })
        },
        _ => {
            proof {
                if is_ipv4_text(s@) {
                    let (x, y, z) = choose|x: int, y: int, z: int| ipv4_split_at(s@, x, y, z);
                    assert(s@[x] == '.' && s@[y] == '.' && s@[z] == '.');
                    let mx = choose|m: int|
                        0 <= m < dots@.len() && #[trigger] dots@[m] as int == x;
                    let my = choose|m: int|
                        0 <= m < dots@.len() && #[trigger] dots@[m] as int == y;
                    let mz = choose|m: int|
                        0 <= m < dots@.len() && #[trigger] dots@[m] as int == z;
                    assert(x == di as int && y == dj as int && z == dk as int);
                }
            }
            None
        },
    }
}

/// The colon of an `ip:port` literal stands at `c`: an IPv4 text before
/// it, a port text after it.
pub open spec fn sock_v4_split_at(s: Seq<char>, c: int) -> bool {
    &&& 0 <= c < s.len()
    &&& s[c] == ':'
    &&& is_ipv4_text(s.subrange(0, c))
    &&& is_port_text(s.subrange(c + 1, s.len() as int))
}

/// `s` is an IPv4 socket-address literal, `a.b.c.d:port`.
pub open spec fn is_sock_v4_text(s: Seq<char>) -> bool {
    exists|c: int| sock_v4_split_at(s, c)
}

/// `s` is an IPv4 socket-address literal reading address `a.b.c.d` and
/// port `port`.
pub open spec fn sock_v4_text_value(s: Seq<char>, a: int, b: int, c: int, d: int, port: int) -> bool {
    exists|ci: int|
        sock_v4_split_at(s, ci) && ipv4_text_value(s.subrange(0, ci), a, b, c, d) && port
            == dec_value(s.subrange(ci + 1, s.len() as int))
}

/// Parse an IPv4 socket-address literal. The result carries the octet
/// and port values exactly when the text is such a literal, and nothing
/// otherwise.
pub fn parse_sock_addr_v4(s: &str) -> (r: Option<SockAddr>)
    ensures
        r is Some <==> is_sock_v4_text(s@),
        r matches Some(sa) ==> (sa matches SockAddr::V4 { a, b, c, d, port }
            && sock_v4_text_value(s@, a as int, b as int, c as int, d as int, port as int)),
{
    let n = s.unicode_len();
    let mut colon: usize = n;
    let mut i: usize = 0;
    while i < n
        invariant
            i <= n,
            n == s@.len(),
            colon == n || (colon < i && s@[colon as int] == ':'),
            colon == n ==> forall|t: int| 0 <= t < i as int ==> s@[t] != ':',
            colon < n ==> forall|t: int| 0 <= t < colon as int ==> s@[t] != ':',
        decreases n - i,
    {
        let ch = s.get_char(i);
        if ch == ':' && colon == n {
            colon = i;
        }
        i = i + 1;
    }
    proof {
        assert(!is_dec_digit(':')) by {
            assert(':' as u32 == 58);
        }
    }
    if colon == n {
        proof {
            if is_sock_v4_text(s@) {
                let ci = choose|ci: int| sock_v4_split_at(s@, ci);
                assert(s@[ci] == ':');
            }
        }
        return None;
    }
    let ip_part = s.substring_char(0, colon);
    let port_part = s.substring_char(colon + 1, n);
    match (parse_ipv4(ip_part), parse_port(port_part)) {
        (Some(p), Some(port)) => {
            proof {
                assert(sock_v4_split_at(s@, colon as int));
                lemma_dec_value_nonneg(s@.subrange(colon as int + 1, s@.len() as int));
            }
            Some(SockAddr::V4 { a: p.a, b: p.b, c: p.c, d: p.d, port })
        },
        _ => {
            proof {
                if is_sock_v4_text(s@) {
                    let ci = choose|ci: int| sock_v4_split_at(s@, ci);
                    assert(s@[ci] == ':');
                    if ci < colon as int {
                        assert(s@[ci] != ':');
                    } else if ci > colon as int {
                        lemma_ipv4_chars(s@.subrange(0, ci));
                        assert(s@.subrange(0, ci)[colon as int] == s@[colon as int]);
                    }
                    assert(ci == colon as int);
                }
            }
            None
        },
    }
}

} // verus!
