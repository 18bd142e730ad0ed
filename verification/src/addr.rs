//! Plain-value network addresses: an IP address as its numeric value, the
//! dotted-quad IPv4 literal grammar, and the deterministic tie-break that
//! picks one address when a name resolves to several.

use vstd::prelude::*;
use vstd::string::StringSliceAdditionalSpecFns;
use crate::wire::{DOT, DIGIT_ZERO, DIGIT_NINE};

verus! {

/// An IP address as plain numbers: an IPv4 address by its 32-bit value, an
/// IPv6 address by its 128-bit value.
#[derive(Clone, Copy, PartialEq, Eq, Structural, Debug)]
pub enum IpAddress {
    V4(u32),
    V6(u128),
}

/// A resolved collector endpoint.
#[derive(Clone, Copy, PartialEq, Eq, Structural, Debug)]
pub struct SockAddr {
    pub ip: IpAddress,
    pub port: u16,
}

/// `b` is an ASCII digit.
pub open spec fn is_digit(b: u8) -> bool {
    DIGIT_ZERO <= b <= DIGIT_NINE
}

/// Numeric value of a digit string, most significant digit first.
pub open spec fn digits_val(s: Seq<u8>) -> nat
    decreases s.len(),
{
    if s.len() == 0 {
        0
    } else {
        digits_val(s.drop_last()) * 10 + (s.last() - DIGIT_ZERO) as nat
    }
}

/// 10 to the `k`-th power.
pub open spec fn pow10(k: nat) -> nat
    decreases k,
{
    if k == 0 {
        1
    } else {
        10 * pow10((k - 1) as nat)
    }
}

/// A digit string is bounded by the power of ten of its length.
pub proof fn lemma_digits_val_bound(s: Seq<u8>)
    requires
        forall|i: int| 0 <= i < s.len() ==> is_digit(#[trigger] s[i]),
    ensures
        digits_val(s) < pow10(s.len()),
    decreases s.len(),
{
    if s.len() > 0 {
        assert forall|i: int| 0 <= i < s.drop_last().len() implies is_digit(
            #[trigger] s.drop_last()[i],
        ) by {
            assert(s.drop_last()[i] == s[i]);
        }
        lemma_digits_val_bound(s.drop_last());
        assert(is_digit(s.last()));
    }
}

/// A decimal octet: one to three digits, no leading zero, value at most 255.
pub open spec fn is_octet(s: Seq<u8>) -> bool {
    &&& 1 <= s.len() <= 3
    &&& forall|i: int| 0 <= i < s.len() ==> is_digit(#[trigger] s[i])
    &&& (s.len() > 1 ==> s[0] != DIGIT_ZERO)
    &&& digits_val(s) <= 255
}

/// `s` splits as `a.b.c.d`: dots exactly at `p1 < p2 < p3` with four octets
/// between them.
pub open spec fn ipv4_split_at(s: Seq<u8>, p1: int, p2: int, p3: int) -> bool {
    &&& 0 < p1 < p2 < p3 < s.len()
    &&& s[p1] == DOT
    &&& s[p2] == DOT
    &&& s[p3] == DOT
    &&& is_octet(s.subrange(0, p1))
    &&& is_octet(s.subrange(p1 + 1, p2))
    &&& is_octet(s.subrange(p2 + 1, p3))
    &&& is_octet(s.subrange(p3 + 1, s.len() as int))
}

/// `s` is a dotted-quad IPv4 literal.
pub open spec fn is_ipv4_literal(s: Seq<u8>) -> bool {
    exists|p1: int, p2: int, p3: int| ipv4_split_at(s, p1, p2, p3)
}

/// The 32-bit value of the literal split at `p1 < p2 < p3`.
pub open spec fn ipv4_value_at(s: Seq<u8>, p1: int, p2: int, p3: int) -> u32 {
    (digits_val(s.subrange(0, p1)) * 0x1000000 + digits_val(s.subrange(p1 + 1, p2)) * 0x10000
        + digits_val(s.subrange(p2 + 1, p3)) * 0x100 + digits_val(
        s.subrange(p3 + 1, s.len() as int),
    )) as u32
}

/// The value of an IPv4 literal; well defined because the split is unique.
pub open spec fn ipv4_literal_value(s: Seq<u8>) -> u32 {
    let (p1, p2, p3) = choose|p1: int, p2: int, p3: int| ipv4_split_at(s, p1, p2, p3);
    ipv4_value_at(s, p1, p2, p3)
}

/// In any split the three dot positions are forced (octets hold only
/// digits), so two splits of one string agree.
pub proof fn lemma_split_unique(s: Seq<u8>, p1: int, p2: int, p3: int, q1: int, q2: int, q3: int)
    requires
        ipv4_split_at(s, p1, p2, p3),
        ipv4_split_at(s, q1, q2, q3),
    ensures
        p1 == q1,
        p2 == q2,
        p3 == q3,
{
    if p1 < q1 {
        assert(is_digit(s.subrange(0, q1)[p1]));
    }
    if q1 < p1 {
        assert(is_digit(s.subrange(0, p1)[q1]));
    }
    if p2 < q2 {
        assert(is_digit(s.subrange(q1 + 1, q2)[p2 - q1 - 1]));
    }
    if q2 < p2 {
        assert(is_digit(s.subrange(p1 + 1, p2)[q2 - p1 - 1]));
    }
    if p3 < q3 {
        assert(is_digit(s.subrange(q2 + 1, q3)[p3 - q2 - 1]));
    }
    if q3 < p3 {
        assert(is_digit(s.subrange(p2 + 1, p3)[q3 - p2 - 1]));
    }
}

/// Finds the first dot at or after `from`.
fn find_dot(b: &[u8], from: usize) -> (r: Option<usize>)
    requires
        from <= b@.len(),
    ensures
        match r {
            Some(i) => from <= i < b@.len() && b@[i as int] == DOT && forall|j: int|
                from <= j < i ==> b@[j] != DOT,
            None => forall|j: int| from <= j < b@.len() ==> b@[j] != DOT,
        },
{
    let mut i = from;
    while i < b.len()
        invariant
            from <= i <= b@.len(),
            forall|j: int| from <= j < i ==> b@[j] != DOT,
        decreases b@.len() - i,
    {
        if b[i] == DOT {
            return Some(i);
        }
        i = i + 1;
    }
    None
}

/// Checks that `b[from..to]` is a decimal octet and computes its value.
fn check_octet(b: &[u8], from: usize, to: usize) -> (r: Option<u32>)
    requires
        from <= to <= b@.len(),
    ensures
        r.is_some() <==> is_octet(b@.subrange(from as int, to as int)),
        r.is_some() ==> r == Some(digits_val(b@.subrange(from as int, to as int)) as u32),
{
    let ghost oct = b@.subrange(from as int, to as int);
    let len = to - from;
    if len < 1 || len > 3 {
        return None;
    }
    if len > 1 && b[from] == DIGIT_ZERO {
        assert(oct[0] == DIGIT_ZERO);
        return None;
    }
    let mut val: u32 = 0;
    let mut i = from;
    assert(oct.subrange(0, 0) =~= b@.subrange(from as int, from as int));
    while i < to
        invariant
            from <= i <= to <= b@.len(),
            to - from <= 3,
            oct == b@.subrange(from as int, to as int),
            forall|j: int| from <= j < i ==> is_digit(#[trigger] b@[j]),
            val == digits_val(b@.subrange(from as int, i as int)),
        decreases to - i,
    {
        let c = b[i];
        if c < DIGIT_ZERO || c > DIGIT_NINE {
            assert(oct[i - from] == b@[i as int]);
            assert(!is_octet(oct));
            return None;
        }
        proof {
            let pre = b@.subrange(from as int, i as int);
            assert forall|j: int| 0 <= j < pre.len() implies is_digit(#[trigger] pre[j]) by {
                assert(pre[j] == b@[from + j]);
            }
            lemma_digits_val_bound(pre);
            assert(pre.len() == i - from <= 2);
            assert(pow10(0) == 1);
            assert(pow10(1) == 10);
            assert(pow10(2) == 100);
            if pre.len() == 0 {
                assert(pow10(pre.len()) == 1);
            } else if pre.len() == 1 {
                assert(pow10(pre.len()) == 10);
            } else {
                assert(pow10(pre.len()) == 100);
            }
            assert(val < 100);
        }
        val = val * 10 + (c - DIGIT_ZERO) as u32;
        proof {
            let pre = b@.subrange(from as int, i as int);
            let ext = b@.subrange(from as int, i + 1);
            assert(ext.drop_last() =~= pre);
            assert(ext.last() == b@[i as int]);
        }
        i = i + 1;
    }
    assert(b@.subrange(from as int, i as int) =~= oct);
    if val > 255 {
        return None;
    }
    assert(is_octet(oct));
    Some(val)
}

/// Parses a dotted-quad IPv4 literal from the bytes of `s`: exactly the
/// strings `is_ipv4_literal` accepts parse, to `ipv4_literal_value`.  This
/// is the library's whole literal grammar; IPv6 literals are not parsed
/// here and take the resolver's name-service path instead.
pub fn parse_ipv4(s: &str) -> (r: Option<u32>)
    ensures
        r.is_some() <==> is_ipv4_literal(s.spec_bytes()),
        r.is_some() ==> r == Some(ipv4_literal_value(s.spec_bytes())),
{
    let b = s.as_bytes();
    let n = b.len();
    let d1 = match find_dot(b, 0) {
        Some(i) => i,
        None => {
            proof {
                if is_ipv4_literal(b@) {
                    let (p1, p2, p3) = choose|p1: int, p2: int, p3: int|
                        ipv4_split_at(b@, p1, p2, p3);
                    assert(b@[p1] == DOT);
                }
            }
            return None;
        },
    };
    let d2 = match find_dot(b, d1 + 1) {
        Some(i) => i,
        None => {
            proof {
                if is_ipv4_literal(b@) {
                    let (p1, p2, p3) = choose|p1: int, p2: int, p3: int|
                        ipv4_split_at(b@, p1, p2, p3);
                    lemma_first_dot_is(b@, p1, p2, p3, d1 as int);
                    assert(b@[p2] == DOT);
                }
            }
            return None;
        },
    };
    let d3 = match find_dot(b, d2 + 1) {
        Some(i) => i,
        None => {
            proof {
                if is_ipv4_literal(b@) {
                    let (p1, p2, p3) = choose|p1: int, p2: int, p3: int|
                        ipv4_split_at(b@, p1, p2, p3);
                    lemma_first_dot_is(b@, p1, p2, p3, d1 as int);
                    lemma_second_dot_is(b@, p1, p2, p3, d1 as int, d2 as int);
                    assert(b@[p3] == DOT);
                }
            }
            return None;
        },
    };
    let oa = check_octet(b, 0, d1);
    let ob = check_octet(b, d1 + 1, d2);
    let oc = check_octet(b, d2 + 1, d3);
    let od = check_octet(b, d3 + 1, n);
    let a = match oa {
        Some(v) => v,
        None => {
            proof {
                if is_ipv4_literal(b@) {
                    let (p1, p2, p3) = choose|p1: int, p2: int, p3: int|
                        ipv4_split_at(b@, p1, p2, p3);
                    lemma_first_dot_is(b@, p1, p2, p3, d1 as int);
                }
            }
            return None;
        },
    };
    let bv = match ob {
        Some(v) => v,
        None => {
            proof {
                if is_ipv4_literal(b@) {
                    let (p1, p2, p3) = choose|p1: int, p2: int, p3: int|
                        ipv4_split_at(b@, p1, p2, p3);
                    lemma_first_dot_is(b@, p1, p2, p3, d1 as int);
                    lemma_second_dot_is(b@, p1, p2, p3, d1 as int, d2 as int);
                }
            }
            return None;
        },
    };
    let c = match oc {
        Some(v) => v,
        None => {
            proof {
                if is_ipv4_literal(b@) {
                    let (p1, p2, p3) = choose|p1: int, p2: int, p3: int|
                        ipv4_split_at(b@, p1, p2, p3);
                    lemma_first_dot_is(b@, p1, p2, p3, d1 as int);
                    lemma_second_dot_is(b@, p1, p2, p3, d1 as int, d2 as int);
                    lemma_third_dot_is(b@, p1, p2, p3, d1 as int, d2 as int, d3 as int);
                }
            }
            return None;
        },
    };
    let d = match od {
        Some(v) => v,
        None => {
            proof {
                if is_ipv4_literal(b@) {
                    let (p1, p2, p3) = choose|p1: int, p2: int, p3: int|
                        ipv4_split_at(b@, p1, p2, p3);
                    lemma_first_dot_is(b@, p1, p2, p3, d1 as int);
                    lemma_second_dot_is(b@, p1, p2, p3, d1 as int, d2 as int);
                    lemma_third_dot_is(b@, p1, p2, p3, d1 as int, d2 as int, d3 as int);
                }
            }
            return None;
        },
    };
    proof {
        assert(ipv4_split_at(b@, d1 as int, d2 as int, d3 as int));
        let (p1, p2, p3) = choose|p1: int, p2: int, p3: int| ipv4_split_at(b@, p1, p2, p3);
        lemma_split_unique(b@, p1, p2, p3, d1 as int, d2 as int, d3 as int);
        assert(ipv4_literal_value(b@) == ipv4_value_at(b@, d1 as int, d2 as int, d3 as int));
        assert(a <= 255 && bv <= 255 && c <= 255 && d <= 255);
    }
    Some(a * 0x1000000 + bv * 0x10000 + c * 0x100 + d)
}

/// The first dot of a split string is its first octet's delimiter.
proof fn lemma_first_dot_is(s: Seq<u8>, p1: int, p2: int, p3: int, d1: int)
    requires
        ipv4_split_at(s, p1, p2, p3),
        0 <= d1 < s.len(),
        s[d1] == DOT,
        forall|j: int| 0 <= j < d1 ==> s[j] != DOT,
    ensures
        p1 == d1,
{
    if p1 < d1 {
        assert(s[p1] == DOT);
    }
    if d1 < p1 {
        assert(is_digit(s.subrange(0, p1)[d1]));
    }
}

/// The second dot of a split string delimits its second octet.
proof fn lemma_second_dot_is(s: Seq<u8>, p1: int, p2: int, p3: int, d1: int, d2: int)
    requires
        ipv4_split_at(s, p1, p2, p3),
        p1 == d1,
        d1 < d2 < s.len(),
        s[d2] == DOT,
        forall|j: int| d1 + 1 <= j < d2 ==> s[j] != DOT,
    ensures
        p2 == d2,
{
    if p2 < d2 {
        assert(s[p2] == DOT);
    }
    if d2 < p2 {
        assert(is_digit(s.subrange(p1 + 1, p2)[d2 - p1 - 1]));
    }
}

/// The third dot of a split string delimits its third octet.
proof fn lemma_third_dot_is(s: Seq<u8>, p1: int, p2: int, p3: int, d1: int, d2: int, d3: int)
    requires
        ipv4_split_at(s, p1, p2, p3),
        p1 == d1,
        p2 == d2,
        d2 < d3 < s.len(),
        s[d3] == DOT,
        forall|j: int| d2 + 1 <= j < d3 ==> s[j] != DOT,
    ensures
        p3 == d3,
{
    if p3 < d3 {
        assert(s[p3] == DOT);
    }
    if d3 < p3 {
        assert(is_digit(s.subrange(p2 + 1, p3)[d3 - p2 - 1]));
    }
}

/// The resolver's deterministic order on addresses: IPv4 before IPv6, and
/// numerically within each family.
pub open spec fn ip_le(a: IpAddress, b: IpAddress) -> bool {
    match (a, b) {
        (IpAddress::V4(x), IpAddress::V4(y)) => x <= y,
        (IpAddress::V4(_), IpAddress::V6(_)) => true,
        (IpAddress::V6(_), IpAddress::V4(_)) => false,
        (IpAddress::V6(x), IpAddress::V6(y)) => x <= y,
    }
}

/// Decides `ip_le` at run time.
pub fn ip_le_exec(a: &IpAddress, b: &IpAddress) -> (r: bool)
    ensures
        r == ip_le(*a, *b),
{
    match (a, b) {
        (IpAddress::V4(x), IpAddress::V4(y)) => *x <= *y,
        (IpAddress::V4(_), IpAddress::V6(_)) => true,
        (IpAddress::V6(_), IpAddress::V4(_)) => false,
        (IpAddress::V6(x), IpAddress::V6(y)) => *x <= *y,
    }
}

/// Picks the smallest address of a non-empty list: the deterministic
/// tie-break when a name resolves to several addresses.
pub fn min_ip(ips: &Vec<IpAddress>) -> (r: IpAddress)
    requires
        ips@.len() > 0,
    ensures
        ips@.contains(r),
        forall|i: int| 0 <= i < ips@.len() ==> ip_le(r, #[trigger] ips@[i]),
{
    let mut best = ips[0];
    let mut i: usize = 1;
    while i < ips.len()
        invariant
            1 <= i <= ips@.len(),
            ips@.contains(best),
            forall|j: int| 0 <= j < i ==> ip_le(best, #[trigger] ips@[j]),
        decreases ips@.len() - i,
    {
        let cand = ips[i];
        if ip_le_exec(&cand, &best) {
            assert forall|j: int| 0 <= j < i implies ip_le(cand, #[trigger] ips@[j]) by {
                assert(ip_le(best, ips@[j]));
            }
            best = cand;
        } else {
            assert(ip_le(best, ips@[i as int]));
        }
        i = i + 1;
    }
    best
}

} // verus!
