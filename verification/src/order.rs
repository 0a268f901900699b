//! Lists of nodes in which order matters: taking a node out, moving a node
//! to the end.

use vstd::prelude::*;
use crate::key::NodeId;

verus! {

/// `i` is the first position of `n` in `s`.
pub open spec fn is_first_at(s: Seq<NodeId>, n: NodeId, i: int) -> bool {
    &&& 0 <= i < s.len()
    &&& s[i] == n
    &&& forall|j: int| 0 <= j < i ==> s[j] != n
}

/// The sequence with the first occurrence of `n` taken out.
pub open spec fn without(s: Seq<NodeId>, n: NodeId) -> Seq<NodeId> {
    if s.contains(n) {
        s.remove(choose|i: int| is_first_at(s, n, i))
    } else {
        s
    }
}

/// The order with `n` moved to the end, if `n` is in it.
pub open spec fn raised(s: Seq<NodeId>, n: NodeId) -> Seq<NodeId> {
    if s.contains(n) {
        without(s, n).push(n)
    } else {
        s
    }
}

/// The first position of `n` is the one with no `n` before it.
pub proof fn lemma_first_at_unique(s: Seq<NodeId>, n: NodeId, i: int)
    requires
        is_first_at(s, n, i),
    ensures
        s.contains(n),
        (choose|c: int| is_first_at(s, n, c)) == i,
        without(s, n) == s.remove(i),
{
    let c = choose|c: int| is_first_at(s, n, c);
    assert(is_first_at(s, n, c));
    if c < i {
        assert(s[c] != n);
    }
    if i < c {
        assert(s[i] != n);
    }
}

/// Where `n` first stands in `list`.
pub fn position_of(list: &Vec<NodeId>, n: NodeId) -> (r: Option<usize>)
    ensures
        match r {
            Some(i) => is_first_at(list@, n, i as int),
            None => !list@.contains(n),
        },
{
    let mut at: usize = 0;
    while at < list.len()
        invariant
            at <= list.len(),
            forall|j: int| 0 <= j < at ==> list@[j] != n,
        decreases list.len() - at,
    {
        if list[at] == n {
            return Some(at);
        }
        at = at + 1;
    }
    None
}

/// Takes the first occurrence of `n` out of `list`.
pub fn remove_first(list: &mut Vec<NodeId>, n: NodeId)
    ensures
        final(list)@ == without(old(list)@, n),
{
    match position_of(list, n) {
        Some(i) => {
            proof {
                lemma_first_at_unique(list@, n, i as int);
            }
            let _ = list.remove(i);
        },
        None => {},
    }
}

/// Taking `n` out of a list without repetitions leaves the other elements,
/// still without repetitions.
pub proof fn lemma_without(s: Seq<NodeId>, n: NodeId)
    requires
        s.no_duplicates(),
    ensures
        without(s, n).no_duplicates(),
        forall|x: NodeId| without(s, n).contains(x) <==> s.contains(x) && x != n,
{
    if s.contains(n) {
        let i = choose|i: int| is_first_at(s, n, i);
        let k = choose|k: int| 0 <= k < s.len() && s[k] == n;
        assert(exists|i: int| is_first_at(s, n, i)) by {
            lemma_has_first(s, n, k);
        }
        let t = s.remove(i);
        assert forall|x: NodeId| t.contains(x) <==> s.contains(x) && x != n by {
            if t.contains(x) {
                let j = choose|j: int| 0 <= j < t.len() && t[j] == x;
                if j < i {
                    assert(s[j] == x);
                } else {
                    assert(s[j + 1] == x);
                }
            }
            if s.contains(x) && x != n {
                let j = choose|j: int| 0 <= j < s.len() && s[j] == x;
                if j < i {
                    assert(t[j] == x);
                } else {
                    assert(t[j - 1] == x);
                }
            }
        }
        assert forall|a: int, b: int| 0 <= a < t.len() && 0 <= b < t.len() && a != b implies t[a]
            != t[b] by {
            let a0 = if a < i { a } else { a + 1 };
            let b0 = if b < i { b } else { b + 1 };
            assert(t[a] == s[a0] && t[b] == s[b0]);
        }
    }
}

/// A value that occurs in a list has a first position there.
pub proof fn lemma_has_first(s: Seq<NodeId>, n: NodeId, k: int)
    requires
        0 <= k < s.len(),
        s[k] == n,
    ensures
        exists|i: int| is_first_at(s, n, i),
    decreases k,
{
    if forall|j: int| 0 <= j < k ==> s[j] != n {
        assert(is_first_at(s, n, k));
    } else {
        let j = choose|j: int| 0 <= j < k && s[j] == n;
        lemma_has_first(s, n, j);
    }
}

/// Raising `n` in an order without repetitions keeps the same nodes, still
/// without repetitions, and puts `n` last if it is there at all.
pub proof fn lemma_raised(s: Seq<NodeId>, n: NodeId)
    requires
        s.no_duplicates(),
    ensures
        raised(s, n).no_duplicates(),
        raised(s, n).len() == s.len(),
        forall|x: NodeId| raised(s, n).contains(x) <==> s.contains(x),
        s.contains(n) ==> raised(s, n).last() == n,
{
    if s.contains(n) {
        lemma_without(s, n);
        let k = choose|k: int| 0 <= k < s.len() && s[k] == n;
        lemma_has_first(s, n, k);
        let t = without(s, n);
        let r = t.push(n);
        assert forall|x: NodeId| r.contains(x) <==> s.contains(x) by {
            if r.contains(x) {
                let j = choose|j: int| 0 <= j < r.len() && r[j] == x;
                if j < t.len() {
                    assert(t[j] == x);
                    assert(t.contains(x));
                }
            }
            if s.contains(x) {
                if x == n {
                    assert(r[r.len() - 1] == x);
                } else {
                    assert(t.contains(x));
                    let j = choose|j: int| 0 <= j < t.len() && t[j] == x;
                    assert(r[j] == x);
                }
            }
        }
        assert forall|a: int, b: int| 0 <= a < r.len() && 0 <= b < r.len() && a != b implies r[a]
            != r[b] by {
            if a < t.len() {
                assert(t.contains(t[a]));
            }
            if b < t.len() {
                assert(t.contains(t[b]));
            }
        }
    }
}

/// Raising a node puts it last, and raising it again, or raising a node
/// that is last already, changes nothing.
pub proof fn lemma_raise_idempotent(order: Seq<NodeId>, n: NodeId)
    requires
        order.no_duplicates(),
    ensures
        order.contains(n) ==> raised(order, n).last() == n,
        raised(raised(order, n), n) == raised(order, n),
        order.len() > 0 && order.last() == n ==> raised(order, n) == order,
{
    if order.len() > 0 && order.last() == n {
        lemma_last_raised(order, n);
    }
    if order.contains(n) {
        lemma_raised(order, n);
        lemma_last_raised(raised(order, n), n);
    }
}

/// Raising the last node of an order without repetitions changes nothing.
proof fn lemma_last_raised(order: Seq<NodeId>, n: NodeId)
    requires
        order.no_duplicates(),
        order.len() > 0,
        order.last() == n,
    ensures
        raised(order, n) == order,
{
    let last = order.len() - 1;
    assert(order[last] == n);
    assert(is_first_at(order, n, last));
    lemma_first_at_unique(order, n, last);
    assert(order.remove(last).push(n) =~= order);
}

} // verus!
