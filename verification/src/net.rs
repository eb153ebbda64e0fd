//! Sorting a list of addresses into octet order.

use vstd::prelude::*;
use vstd::seq_lib::lemma_multiset_commutative;
use vstd::seq_lib::to_multiset_build;
use vstd::seq_lib::to_multiset_remove;

use crate::addr::Ipv4Address;

verus! {

/// The order the addresses are sorted by: lexicographic on the octets.
pub open spec fn addr_le(x: Ipv4Address, y: Ipv4Address) -> bool {
    if x.o0 != y.o0 {
        x.o0 < y.o0
    } else if x.o1 != y.o1 {
        x.o1 < y.o1
    } else if x.o2 != y.o2 {
        x.o2 < y.o2
    } else {
        x.o3 <= y.o3
    }
}

/// Nondecreasing in octet order.
pub open spec fn sorted_addrs(s: Seq<Ipv4Address>) -> bool {
    forall|i: int, j: int| 0 <= i < j < s.len() ==> addr_le(s[i], s[j])
}

/// Decides [`addr_le`].
pub fn addr_le_exec(x: &Ipv4Address, y: &Ipv4Address) -> (r: bool)
    ensures
        r == addr_le(*x, *y),
{
    if x.o0 != y.o0 {
        x.o0 < y.o0
    } else if x.o1 != y.o1 {
        x.o1 < y.o1
    } else if x.o2 != y.o2 {
        x.o2 < y.o2
    } else {
        x.o3 <= y.o3
    }
}

/// Inserting an element anywhere in a sequence adds exactly it to the
/// sequence's multiset.
proof fn lemma_insert_to_multiset(s: Seq<Ipv4Address>, p: int, x: Ipv4Address)
    requires
        0 <= p <= s.len(),
    ensures
        s.insert(p, x).to_multiset() =~= s.to_multiset().insert(x),
{
    let a = s.subrange(0, p);
    let b = s.subrange(p, s.len() as int);
    lemma_multiset_commutative(a.push(x), b);
    to_multiset_build(a, x);
    lemma_multiset_commutative(a, b);
    assert(a + b =~= s);
}

/// Sorts the addresses in place into octet order, keeping exactly the same
/// addresses (as a multiset, so duplicates survive).
pub fn sort_addrs(v: &mut Vec<Ipv4Address>)
    ensures
        sorted_addrs(final(v)@),
        final(v)@.to_multiset() == old(v)@.to_multiset(),
{
    let n = v.len();
    let mut i: usize = 0;
    while i < n
        invariant
            n == v@.len(),
            i <= n,
            sorted_addrs(v@.take(i as int)),
            v@.to_multiset() == old(v)@.to_multiset(),
        decreases n - i,
    {
        let x = v[i];
        let ghost s0 = v@;
        let mut p: usize = 0;
        while p < i && addr_le_exec(&v[p], &x)
            invariant
                p <= i,
                i < n,
                n == v@.len(),
                v@ == s0,
                x == s0[i as int],
                forall|j: int| 0 <= j < p ==> addr_le(s0[j], x),
            decreases i - p,
        {
            p = p + 1;
        }
        let removed = v.remove(i);
        v.insert(p, removed);
        proof {
            let s1 = s0.remove(i as int);
            // the same addresses: removing x and putting it back elsewhere
            // leaves the multiset unchanged
            to_multiset_remove(s0, i as int);
            lemma_insert_to_multiset(s1, p as int, x);
            s0.to_multiset_ensures();
            assert(s0.contains(x));
            assert(v@.to_multiset() =~= s0.to_multiset());
            // the grown prefix is sorted
            assert(forall|j: int| 0 <= j < p ==> v@[j] == s0[j]);
            assert(v@[p as int] == x);
            assert(forall|j: int| p < j <= i ==> v@[j] == s0[j - 1]);
            assert(sorted_addrs(v@.take(i + 1))) by {
                assert forall|a: int, b: int| 0 <= a < b < i + 1 implies #[trigger] addr_le(
                    v@.take(i + 1)[a],
                    v@.take(i + 1)[b],
                ) by {
                    let pre = s0.take(i as int);
                    if b < p {
                        assert(addr_le(pre[a], pre[b]));
                    } else if b == p {
                        assert(addr_le(s0[a], x));
                    } else if a < p {
                        // a before the inserted slot, b after it
                        assert(addr_le(pre[a], pre[b - 1]));
                    } else if a == p {
                        // x against a former prefix element it displaced
                        assert(!addr_le(s0[p as int], x));
                        if b - 1 > p {
                            assert(addr_le(pre[p as int], pre[b - 1]));
                        }
                        assert(addr_le(x, s0[b - 1]));
                    } else {
                        assert(addr_le(pre[a - 1], pre[b - 1]));
                    }
                }
            }
        }
        i = i + 1;
    }
    proof {
        assert(v@.take(n as int) =~= v@);
    }
}

} // verus!
