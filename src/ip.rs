//! IP addresses as raw octets, their wire encoding and their ordering.
use vstd::prelude::*;

verus! {

broadcast use vstd::array::group_array_axioms;

/// An IPv4 or IPv6 address, held as its network-order octets.
#[derive(Clone, Copy, Debug, PartialEq, Eq)]
pub enum IpAddr {
    V4([u8; 4]),
    V6([u8; 16]),
}

impl View for IpAddr {
    /// The octets of the address: four for IPv4, sixteen for IPv6.
    type V = Seq<u8>;

    open spec fn view(&self) -> Seq<u8> {
        match self {
            IpAddr::V4(o) => o@,
            IpAddr::V6(o) => o@,
        }
    }
}

/// The address family number of `AF_INET` on Linux.
pub const AF_INET_TAG: i32 = 2;

/// The address family number of `AF_INET6` on Linux.
pub const AF_INET6_TAG: i32 = 10;

/// Relies on libc::AF_INET: the IPv4 address family constant.
#[verifier::external_body]
fn af_inet() -> (r: i32)
    ensures
        r == AF_INET_TAG,
{
    libc::AF_INET
}

/// Relies on libc::AF_INET6: the IPv6 address family constant.
#[verifier::external_body]
fn af_inet6() -> (r: i32)
    ensures
        r == AF_INET6_TAG,
{
    libc::AF_INET6
}

pub open spec fn is_ipv4(a: IpAddr) -> bool {
    a is V4
}

pub open spec fn family_of(a: IpAddr) -> i32 {
    match a {
        IpAddr::V4(_) => AF_INET_TAG,
        IpAddr::V6(_) => AF_INET6_TAG,
    }
}

/// A well-formed octet sequence: the view of some address.
pub open spec fn valid_octets(s: Seq<u8>) -> bool {
    s.len() == 4 || s.len() == 16
}

/// Loopback addresses: `127.0.0.0/8` and `::1`.
pub open spec fn spec_is_loopback(a: IpAddr) -> bool {
    if is_ipv4(a) {
        a@[0] == 127
    } else {
        (forall|i: int| 0 <= i < 15 ==> a@[i] == 0) && a@[15] == 1
    }
}

/// The big-endian value of an octet sequence.
pub open spec fn be(s: Seq<u8>) -> nat
    decreases s.len(),
{
    if s.len() == 0 {
        0
    } else {
        be(s.drop_last()) * 256 + s.last() as nat
    }
}

pub open spec fn pow256(n: nat) -> nat
    decreases n,
{
    if n == 0 {
        1
    } else {
        pow256((n - 1) as nat) * 256
    }
}

/// The position of an address in the total order used for sorting: all IPv4
/// addresses first, each family ordered by its octets read as a big-endian number.
pub open spec fn rank(s: Seq<u8>) -> int {
    if s.len() == 16 {
        (pow256(4) + be(s)) as int
    } else {
        be(s) as int
    }
}

pub proof fn lemma_be_bound(s: Seq<u8>)
    ensures
        be(s) < pow256(s.len()),
    decreases s.len(),
{
    if s.len() > 0 {
        lemma_be_bound(s.drop_last());
        let a = be(s.drop_last());
        let p = pow256((s.len() - 1) as nat);
        let x = s.last() as nat;
        assert(a * 256 + x < p * 256) by (nonlinear_arith)
            requires
                a < p,
                x < 256,
        ;
    }
}

pub proof fn lemma_be_injective(s: Seq<u8>, t: Seq<u8>)
    requires
        s.len() == t.len(),
        be(s) == be(t),
    ensures
        s == t,
    decreases s.len(),
{
    if s.len() > 0 {
        let a = be(s.drop_last());
        let b = be(t.drop_last());
        let x = s.last() as int;
        let y = t.last() as int;
        assert(a == b && x == y) by (nonlinear_arith)
            requires
                a * 256 + x == b * 256 + y,
                0 <= x < 256,
                0 <= y < 256,
                a >= 0,
                b >= 0,
        ;
        lemma_be_injective(s.drop_last(), t.drop_last());
        assert(s =~= s.drop_last().push(s.last()));
        assert(t =~= t.drop_last().push(t.last()));
    }
}

/// Two well-formed addresses of equal rank are the same address.
pub proof fn lemma_rank_injective(s: Seq<u8>, t: Seq<u8>)
    requires
        valid_octets(s),
        valid_octets(t),
        rank(s) == rank(t),
    ensures
        s == t,
{
    lemma_be_bound(s);
    lemma_be_bound(t);
    reveal_with_fuel(pow256, 5);
    assert(pow256(4) == 0x1_0000_0000);
    lemma_be_injective(s, t);
}

/// Every IPv4 address ranks below every IPv6 address.
pub proof fn lemma_rank_families(s: Seq<u8>, t: Seq<u8>)
    requires
        s.len() == 4,
        t.len() == 16,
    ensures
        rank(s) < rank(t),
{
    lemma_be_bound(s);
}

fn be_value(o: &[u8]) -> (r: u128)
    requires
        o@.len() <= 16,
    ensures
        r == be(o@),
{
    let mut v: u128 = 0;
    let mut i: usize = 0;
    while i < o.len()
        invariant
            i <= o@.len() <= 16,
            v == be(o@.take(i as int)),
        decreases o@.len() - i,
    {
        proof {
            lemma_be_bound(o@.take(i as int));
            reveal_with_fuel(pow256, 16);
            assert(pow256(15) == 0x1_0000_0000_0000_0000_0000_0000_0000_00);
            lemma_pow256_mono(i as nat, 15);
            assert(o@.take(i + 1).drop_last() =~= o@.take(i as int));
        }
        v = v * 256 + o[i] as u128;
        i = i + 1;
    }
    assert(o@.take(i as int) =~= o@);
    v
}

proof fn lemma_pow256_mono(a: nat, b: nat)
    requires
        a <= b,
    ensures
        pow256(a) <= pow256(b),
    decreases b,
{
    if a < b {
        lemma_pow256_mono(a, (b - 1) as nat);
    }
}

/// Whether `a` comes strictly before `b` in the sorting order.
pub fn ip_less(a: &IpAddr, b: &IpAddr) -> (r: bool)
    ensures
        r == (rank(a@) < rank(b@)),
{
    proof {
        lemma_be_bound(a@);
        lemma_be_bound(b@);
    }
    match (a, b) {
        (IpAddr::V4(x), IpAddr::V4(y)) => be_value(x.as_slice()) < be_value(y.as_slice()),
        (IpAddr::V6(x), IpAddr::V6(y)) => be_value(x.as_slice()) < be_value(y.as_slice()),
        (IpAddr::V4(x), IpAddr::V6(y)) => {
            proof {
                lemma_rank_families(x@, y@);
            }
            true
        },
        (IpAddr::V6(x), IpAddr::V4(y)) => {
            proof {
                lemma_rank_families(y@, x@);
            }
            false
        },
    }
}


/// The address family number that the resolver daemon expects with `a`.
pub fn ip_version(a: &IpAddr) -> (r: i32)
    ensures
        r == family_of(*a),
{
    match a {
        IpAddr::V4(_) => af_inet(),
        IpAddr::V6(_) => af_inet6(),
    }
}

/// The raw octets of `a`: four for IPv4, sixteen for IPv6.
pub fn ip_to_bytes(a: &IpAddr) -> (r: Vec<u8>)
    ensures
        r@ == a@,
        r@.len() == if is_ipv4(*a) { 4nat } else { 16nat },
{
    let o: &[u8] = match a {
        IpAddr::V4(x) => x.as_slice(),
        IpAddr::V6(x) => x.as_slice(),
    };
    let mut r: Vec<u8> = Vec::new();
    let mut i: usize = 0;
    while i < o.len()
        invariant
            i <= o@.len(),
            o@ == a@,
            r@ == o@.take(i as int),
        decreases o@.len() - i,
    {
        r.push(o[i]);
        i = i + 1;
        assert(r@ =~= o@.take(i as int));
    }
    assert(o@.take(i as int) =~= o@);
    r
}

/// Decodes raw octets: four make an IPv4 address, sixteen an IPv6 address, and
/// any other length is malformed.
pub fn ip_from_bytes(bytes: &[u8]) -> (r: Option<IpAddr>)
    ensures
        r is Some <==> valid_octets(bytes@),
        r matches Some(a) ==> a@ == bytes@,
{
    if bytes.len() == 4 {
        let mut o = [0u8; 4];
        let mut i: usize = 0;
        while i < 4
            invariant
                i <= 4,
                bytes@.len() == 4,
                forall|j: int| 0 <= j < i ==> o@[j] == bytes@[j],
            decreases 4 - i,
        {
            o[i] = bytes[i];
            i = i + 1;
        }
        assert(o@ =~= bytes@);
        Some(IpAddr::V4(o))
    } else if bytes.len() == 16 {
        let mut o = [0u8; 16];
        let mut i: usize = 0;
        while i < 16
            invariant
                i <= 16,
                bytes@.len() == 16,
                forall|j: int| 0 <= j < i ==> o@[j] == bytes@[j],
            decreases 16 - i,
        {
            o[i] = bytes[i];
            i = i + 1;
        }
        assert(o@ =~= bytes@);
        Some(IpAddr::V6(o))
    } else {
        None
    }
}

/// Whether `a` is a loopback address.
pub fn is_loopback(a: &IpAddr) -> (r: bool)
    ensures
        r == spec_is_loopback(*a),
{
    match a {
        IpAddr::V4(o) => o[0] == 127,
        IpAddr::V6(o) => {
            let mut i: usize = 0;
            while i < 15
                invariant
                    i <= 15,
                    o@ == a@,
                    !is_ipv4(*a),
                    forall|j: int| 0 <= j < i ==> a@[j] == 0,
                decreases 15 - i,
            {
                if o[i] != 0 {
                    assert(a@[i as int] != 0);
                    return false;
                }
                i = i + 1;
            }
            o[15] == 1
        },
    }
}

/// Strictly increasing in the sorting order, hence free of duplicates.
pub open spec fn strictly_sorted(s: Seq<IpAddr>) -> bool {
    forall|i: int, j: int| 0 <= i < j < s.len() ==> rank(s[i]@) < rank(s[j]@)
}

/// Whether some address in `s` has the octets `v`.
pub open spec fn holds_addr(s: Seq<IpAddr>, v: Seq<u8>) -> bool {
    exists|q: int| 0 <= q < s.len() && #[trigger] s[q]@ == v
}

/// The addresses of `servers`, sorted and with duplicates removed.
pub fn sorted_unique(servers: &[IpAddr]) -> (r: Vec<IpAddr>)
    ensures
        strictly_sorted(r@),
        forall|i: int| 0 <= i < r@.len() ==> servers@.contains(#[trigger] r@[i]),
        forall|i: int| 0 <= i < servers@.len() ==> holds_addr(r@, #[trigger] servers@[i]@),
{
    let mut r: Vec<IpAddr> = Vec::new();
    let mut i: usize = 0;
    while i < servers.len()
        invariant
            i <= servers@.len(),
            strictly_sorted(r@),
            forall|k: int| 0 <= k < r@.len() ==> servers@.contains(#[trigger] r@[k]),
            forall|k: int| 0 <= k < i ==> holds_addr(r@, #[trigger] servers@[k]@),
        decreases servers@.len() - i,
    {
        let x = servers[i];
        let mut p: usize = 0;
        while p < r.len() && ip_less(&r[p], &x)
            invariant
                p <= r@.len(),
                forall|k: int| 0 <= k < p ==> rank(#[trigger] r@[k]@) < rank(x@),
            decreases r@.len() - p,
        {
            p = p + 1;
        }
        if p < r.len() && !ip_less(&x, &r[p]) {
            proof {
                lemma_rank_injective(x@, r@[p as int]@);
                assert(holds_addr(r@, servers@[i as int]@));
            }
        } else {
            let ghost before = r@;
            r.insert(p, x);
            proof {
                assert(r@[p as int] == x);
                assert forall|k: int| 0 <= k < i + 1 implies holds_addr(r@, #[trigger] servers@[k]@) by {
                    if k < i {
                        let q = choose|q: int| 0 <= q < before.len() && #[trigger] before[q]@ == servers@[k]@;
                        if q < p {
                            assert(r@[q]@ == servers@[k]@);
                        } else {
                            assert(r@[q + 1]@ == servers@[k]@);
                        }
                    } else {
                        assert(r@[p as int]@ == servers@[k]@);
                    }
                }
                assert forall|k: int| 0 <= k < r@.len() implies servers@.contains(#[trigger] r@[k]) by {
                    if k < p {
                        assert(r@[k] == before[k]);
                    } else if k > p {
                        assert(r@[k] == before[k - 1]);
                    } else {
                        assert(servers@[i as int] == r@[k]);
                    }
                }
            }
        }
        i = i + 1;
    }
    r
}

} // verus!
