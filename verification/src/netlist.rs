//! Lists of networks in listing order without repetitions.

use crate::net::Ipv4Net;
use vstd::prelude::*;

verus! {

/// Every network of the list comes strictly before each one after it. Such a
/// list is sorted and holds nothing twice.
pub open spec fn strictly_ordered(s: Seq<Ipv4Net>) -> bool {
    forall|i: int, j: int| 0 <= i < j < s.len() ==> #[trigger] s[i].precedes(#[trigger] s[j])
}

/// Every network of the list has a prefix length of at most 32.
pub open spec fn all_wf(s: Seq<Ipv4Net>) -> bool {
    forall|i: int| 0 <= i < s.len() ==> (#[trigger] s[i]).wf()
}

/// Whether `net` occurs in `nets`.
pub fn contains_network(nets: &Vec<Ipv4Net>, net: Ipv4Net) -> (found: bool)
    ensures
        found == nets@.contains(net),
{
    let mut i: usize = 0;
    while i < nets.len()
        invariant
            i <= nets.len(),
            forall|j: int| 0 <= j < i ==> nets@[j] != net,
        decreases nets.len() - i,
    {
        if nets[i] == net {
            return true;
        }
        i += 1;
    }
    false
}

/// Puts `net` at its place in a strictly ordered list, unless the list holds
/// it already.
pub fn insert_ordered(list: &mut Vec<Ipv4Net>, net: Ipv4Net)
    requires
        strictly_ordered(old(list)@),
    ensures
        strictly_ordered(final(list)@),
        forall|n: Ipv4Net| final(list)@.contains(n) <==> (old(list)@.contains(n) || n == net),
        old(list)@.contains(net) ==> final(list)@ == old(list)@,
        !old(list)@.contains(net) ==> final(list)@.len() == old(list)@.len() + 1,
{
    let mut pos: usize = 0;
    while pos < list.len() && list[pos].is_before(&net)
        invariant
            pos <= list.len(),
            list@ == old(list)@,
            forall|j: int| 0 <= j < pos ==> (#[trigger] list@[j]).precedes(net),
        decreases list.len() - pos,
    {
        pos += 1;
    }
    let ghost before = list@;
    if pos < list.len() && list[pos] == net {
        assert forall|n: Ipv4Net| before.contains(n) || n == net implies before.contains(n) by {
            assert(before[pos as int] == net);
        }
    } else {
        list.insert(pos, net);
        let ghost after = list@;
        assert(after.len() == before.len() + 1);
        assert(after[pos as int] == net);
        assert(forall|j: int| 0 <= j < pos ==> after[j] == before[j]);
        assert(forall|j: int| pos < j < after.len() ==> after[j] == before[j - 1]);
        assert forall|j: int| pos <= j < before.len() implies net.precedes(
            #[trigger] before[j],
        ) by {
            let first = before[pos as int];
            assert(!first.precedes(net) && first != net);
            assert(net.precedes(first));
            if pos < j {
                assert(first.precedes(before[j]));
            }
        }
        assert forall|i: int, j: int| 0 <= i < j < after.len() implies #[trigger] after[i].precedes(
            #[trigger] after[j],
        ) by {
            if j < pos {
                assert(before[i].precedes(before[j]));
            } else if j == pos {
                assert(before[i].precedes(net));
            } else if i < pos {
                assert(before[i].precedes(before[j - 1]));
            } else if i == pos {
                assert(net.precedes(before[j - 1]));
            } else {
                assert(before[i - 1].precedes(before[j - 1]));
            }
        }
        assert forall|n: Ipv4Net| after.contains(n) <==> (before.contains(n) || n == net) by {
            if after.contains(n) {
                let j = choose|j: int| 0 <= j < after.len() && after[j] == n;
                if j < pos {
                    assert(before[j] == n);
                } else if j > pos {
                    assert(before[j - 1] == n);
                }
            }
            if before.contains(n) {
                let j = choose|j: int| 0 <= j < before.len() && before[j] == n;
                if j < pos {
                    assert(after[j] == n);
                } else {
                    assert(after[j + 1] == n);
                }
            }
        }
        assert(!before.contains(net)) by {
            if before.contains(net) {
                let j = choose|j: int| 0 <= j < before.len() && before[j] == net;
                if j < pos {
                    assert(before[j].precedes(net));
                } else {
                    assert(net.precedes(before[j]));
                }
            }
        }
    }
}

/// Sorts a list of networks and drops repetitions: the result is strictly
/// ordered and holds exactly the networks that occur in `nets`.
pub fn sorted_unique(nets: &Vec<Ipv4Net>) -> (list: Vec<Ipv4Net>)
    ensures
        strictly_ordered(list@),
        forall|n: Ipv4Net| list@.contains(n) <==> nets@.contains(n),
        list@.len() <= nets@.len(),
        nets@.len() > 0 ==> list@.len() > 0,
{
    let mut list: Vec<Ipv4Net> = Vec::new();
    let mut i: usize = 0;
    while i < nets.len()
        invariant
            i <= nets.len(),
            strictly_ordered(list@),
            list@.len() <= i,
            i > 0 ==> list@.len() > 0,
            forall|n: Ipv4Net| list@.contains(n) <==> nets@.take(i as int).contains(n),
        decreases nets.len() - i,
    {
        let ghost seen = nets@.take(i as int);
        insert_ordered(&mut list, nets[i]);
        i += 1;
        proof {
            let next = nets@.take(i as int);
            assert forall|n: Ipv4Net| list@.contains(n) <==> next.contains(n) by {
                if next.contains(n) {
                    let j = choose|j: int| 0 <= j < next.len() && next[j] == n;
                    if j < i - 1 {
                        assert(seen[j] == n);
                    }
                }
                if seen.contains(n) {
                    let j = choose|j: int| 0 <= j < seen.len() && seen[j] == n;
                    assert(next[j] == n);
                }
                assert(next[i - 1] == nets@[i - 1]);
            }
        }
    }
    assert(nets@.take(i as int) =~= nets@);
    list
}

/// A strictly ordered list is fixed by the networks it holds: two such lists
/// with the same members are the same list.
pub proof fn lemma_strictly_ordered_unique(a: Seq<Ipv4Net>, b: Seq<Ipv4Net>)
    requires
        strictly_ordered(a),
        strictly_ordered(b),
        forall|n: Ipv4Net| a.contains(n) <==> b.contains(n),
    ensures
        a == b,
    decreases a.len(),
{
    if a.len() == 0 {
        if b.len() > 0 {
            assert(b.contains(b[0]));
        }
        assert(a =~= b);
    } else if b.len() == 0 {
        assert(a.contains(a[0]));
    } else {
        // The last members agree: each is the greatest of the common set.
        let la = a.last();
        let lb = b.last();
        assert(a.contains(la));
        assert(b.contains(lb));
        let ia = choose|i: int| 0 <= i < a.len() && a[i] == lb;
        let ib = choose|i: int| 0 <= i < b.len() && b[i] == la;
        if ia < a.len() - 1 {
            assert(a[ia].precedes(a[a.len() - 1]));
        }
        if ib < b.len() - 1 {
            assert(b[ib].precedes(b[b.len() - 1]));
        }
        assert(la == lb);
        let a0 = a.drop_last();
        let b0 = b.drop_last();
        assert forall|n: Ipv4Net| a0.contains(n) <==> b0.contains(n) by {
            if a0.contains(n) {
                let i = choose|i: int| 0 <= i < a0.len() && a0[i] == n;
                assert(a[i].precedes(a[a.len() - 1]));
                assert(a.contains(a[i]));
                let j = choose|j: int| 0 <= j < b.len() && b[j] == n;
                assert(j < b.len() - 1);
                assert(b0[j] == n);
            }
            if b0.contains(n) {
                let i = choose|i: int| 0 <= i < b0.len() && b0[i] == n;
                assert(b[i].precedes(b[b.len() - 1]));
                assert(b.contains(b[i]));
                let j = choose|j: int| 0 <= j < a.len() && a[j] == n;
                assert(j < a.len() - 1);
                assert(a0[j] == n);
            }
        }
        assert forall|i: int, j: int| 0 <= i < j < a0.len() implies #[trigger] a0[i].precedes(
            #[trigger] a0[j],
        ) by {
            assert(a[i].precedes(a[j]));
        }
        assert forall|i: int, j: int| 0 <= i < j < b0.len() implies #[trigger] b0[i].precedes(
            #[trigger] b0[j],
        ) by {
            assert(b[i].precedes(b[j]));
        }
        lemma_strictly_ordered_unique(a0, b0);
        assert(a =~= a0.push(la));
        assert(b =~= b0.push(lb));
    }
}

} // verus!
