//! Stable ordering of indexed items.

use vstd::prelude::*;
use vstd::set_lib::lemma_int_range;

verus! {

/// Items numbered from zero, with a total preorder on their numbers.
pub trait Ranking {
    /// Whether the ranking's own tables agree with each other.
    spec fn valid(&self) -> bool;

    /// How many items there are.
    spec fn count(&self) -> nat;

    /// Whether the first item ranks no later than the second.
    spec fn relation(&self) -> spec_fn(int, int) -> bool;

    proof fn total(&self, i: int, j: int)
        requires
            self.valid(),
            0 <= i < self.count(),
            0 <= j < self.count(),
        ensures
            (self.relation())(i, j) || (self.relation())(j, i),
    ;

    proof fn transitive(&self, i: int, j: int, k: int)
        requires
            self.valid(),
            0 <= i < self.count(),
            0 <= j < self.count(),
            0 <= k < self.count(),
            (self.relation())(i, j),
            (self.relation())(j, k),
        ensures
            (self.relation())(i, k),
    ;

    fn not_after(&self, i: usize, j: usize) -> (r: bool)
        requires
            self.valid(),
            i < self.count(),
            j < self.count(),
        ensures
            r == (self.relation())(i as int, j as int),
    ;
}

/// `i` comes first in a stable arrangement: it ranks before `j`, or ranks the
/// same and has the smaller number.
pub open spec fn comes_first(le: spec_fn(int, int) -> bool, i: int, j: int) -> bool {
    le(i, j) && (le(j, i) ==> i < j)
}

/// Each number in `order` comes first before every later one.
pub open spec fn in_order(le: spec_fn(int, int) -> bool, order: Seq<usize>) -> bool {
    forall|a: int, b: int|
        0 <= a < b < order.len() ==> comes_first(
            le,
            #[trigger] order[a] as int,
            #[trigger] order[b] as int,
        )
}

/// `order` lists each of `n` items once, arranged by `le`, items of equal rank
/// by number.
pub open spec fn is_stable_order(
    n: nat,
    le: spec_fn(int, int) -> bool,
    order: Seq<usize>,
) -> bool {
    &&& order.len() == n
    &&& forall|k: int| 0 <= k < order.len() ==> (#[trigger] order[k] as int) < n
    &&& in_order(le, order)
}

/// The items of `s` in the order listed.
pub open spec fn picked<A>(s: Seq<A>, order: Seq<usize>) -> Seq<A> {
    Seq::new(order.len(), |k: int| s[order[k] as int])
}

/// `t` holds the items of `s` in their stable order under `le`.
pub open spec fn arranged<A>(s: Seq<A>, t: Seq<A>, le: spec_fn(int, int) -> bool) -> bool {
    exists|order: Seq<usize>| #[trigger]
        is_stable_order(s.len(), le, order) && t == picked(s, order)
}

spec fn within(order: Seq<usize>, lo: int, hi: int) -> bool {
    &&& order.len() == hi - lo
    &&& forall|k: int| 0 <= k < order.len() ==> lo <= (#[trigger] order[k] as int) < hi
}

/// Merges two arranged halves: `left` holds the numbers below `mid`.
fn merge<R: Ranking>(
    r: &R,
    left: &Vec<usize>,
    right: &Vec<usize>,
    lo: usize,
    mid: usize,
    hi: usize,
) -> (out: Vec<usize>)
    requires
        r.valid(),
        lo <= mid <= hi <= r.count(),
        within(left@, lo as int, mid as int),
        within(right@, mid as int, hi as int),
        in_order(r.relation(), left@),
        in_order(r.relation(), right@),
    ensures
        within(out@, lo as int, hi as int),
        in_order(r.relation(), out@),
{
    let mut out: Vec<usize> = Vec::new();
    let mut i: usize = 0;
    let mut j: usize = 0;
    while i < left.len() || j < right.len()
        invariant
            r.valid(),
            lo <= mid <= hi <= r.count(),
            within(left@, lo as int, mid as int),
            within(right@, mid as int, hi as int),
            in_order(r.relation(), left@),
            in_order(r.relation(), right@),
            i <= left.len(),
            j <= right.len(),
            out@.len() == i + j,
            forall|k: int| 0 <= k < out@.len() ==> lo <= (#[trigger] out@[k] as int) < hi,
            in_order(r.relation(), out@),
            forall|k: int, m: int|
                0 <= k < out@.len() && i <= m < left@.len() ==> comes_first(r.relation(),
                    #[trigger] out@[k] as int,
                    #[trigger] left@[m] as int,
                ),
            forall|k: int, m: int|
                0 <= k < out@.len() && j <= m < right@.len() ==> comes_first(r.relation(),
                    #[trigger] out@[k] as int,
                    #[trigger] right@[m] as int,
                ),
        decreases left.len() - i + right.len() - j,
    {
        let take_left = if i == left.len() {
            false
        } else if j == right.len() {
            true
        } else {
            r.not_after(left[i], right[j])
        };
        if take_left {
            let x = left[i];
            proof {
                assert forall|m: int| j <= m < right@.len() implies comes_first(r.relation(),
                    x as int,
                    #[trigger] right@[m] as int,
                ) by {
                    if m > j {
                        assert(comes_first(r.relation(), right@[j as int] as int, right@[m] as int));
                        r.transitive(x as int, right@[j as int] as int, right@[m] as int);
                    }
                }
            }
            out.push(x);
            i += 1;
        } else {
            let x = right[j];
            proof {
                assert forall|m: int| i <= m < left@.len() implies comes_first(r.relation(),
                    x as int,
                    #[trigger] left@[m] as int,
                ) by {
                    let l = left@[i as int] as int;
                    let lm = left@[m] as int;
                    r.total(l, x as int);
                    if m > i {
                        assert(comes_first(r.relation(), l, lm));
                        r.transitive(x as int, l, lm);
                    }
                    if (r.relation())(lm, x as int) {
                        if m > i {
                            r.transitive(l, lm, x as int);
                        }
                        assert(false);
                    }
                }
            }
            out.push(x);
            j += 1;
        }
    }
    out
}

fn order_range<R: Ranking>(r: &R, lo: usize, hi: usize) -> (out: Vec<usize>)
    requires
        r.valid(),
        lo <= hi <= r.count(),
    ensures
        within(out@, lo as int, hi as int),
        in_order(r.relation(), out@),
    decreases hi - lo,
{
    let mut out: Vec<usize> = Vec::new();
    if hi - lo == 0 {
        return out;
    }
    if hi - lo == 1 {
        out.push(lo);
        return out;
    }
    let mid: usize = lo + (hi - lo) / 2;
    let left = order_range(r, lo, mid);
    let right = order_range(r, mid, hi);
    merge(r, &left, &right, lo, mid, hi)
}

/// The stable arrangement of `n` ranked items.
pub fn stable_order<R: Ranking>(r: &R, n: usize) -> (out: Vec<usize>)
    requires
        r.valid(),
        n == r.count(),
    ensures
        is_stable_order(n as nat, r.relation(), out@),
{
    order_range(r, 0, n)
}

/// A stable order lists every item exactly once.
pub proof fn stable_order_lists_all(n: nat, le: spec_fn(int, int) -> bool, order: Seq<usize>, i: int)
    requires
        is_stable_order(n, le, order),
        0 <= i < n,
    ensures
        exists|k: int| 0 <= k < order.len() && #[trigger] order[k] as int == i,
        order.no_duplicates(),
{
    assert forall|a: int, b: int| 0 <= a < b < order.len() implies order[a] != order[b] by {
        assert(comes_first(le, order[a] as int, order[b] as int));
    }
    assert(order.no_duplicates());
    let ints = order.map_values(|x: usize| x as int);
    assert(ints.no_duplicates());
    ints.unique_seq_to_set();
    lemma_int_range(0, n as int);
    let all = vstd::set_lib::set_int_range(0, n as int);
    assert(ints.to_set().subset_of(all));
    vstd::set_lib::lemma_subset_equality(ints.to_set(), all);
    assert(ints.to_set().contains(i));
    let k = choose|k: int| 0 <= k < ints.len() && ints[k] == i;
    assert(order[k] as int == i);
}

/// Two stable orders of the same items are the same.
pub proof fn stable_order_unique(n: nat, le: spec_fn(int, int) -> bool, p: Seq<usize>, q: Seq<usize>)
    requires
        is_stable_order(n, le, p),
        is_stable_order(n, le, q),
    ensures
        p == q,
{
    stable_order_prefix_unique(n, le, p, q, p.len() as int);
    assert(p =~= q);
}

proof fn stable_order_prefix_unique(n: nat, le: spec_fn(int, int) -> bool, p: Seq<usize>, q: Seq<usize>, upto: int)
    requires
        is_stable_order(n, le, p),
        is_stable_order(n, le, q),
        0 <= upto <= p.len(),
    ensures
        forall|k: int| 0 <= k < upto ==> p[k] == q[k],
    decreases upto,
{
    if upto > 0 {
        stable_order_prefix_unique(n, le, p, q, upto - 1);
        let m = upto - 1;
        if p[m] != q[m] {
            stable_order_lists_all(n, le, p, q[m] as int);
            stable_order_lists_all(n, le, q, p[m] as int);
            let j = choose|k: int| 0 <= k < p.len() && #[trigger] p[k] as int == q[m] as int;
            let i = choose|k: int| 0 <= k < q.len() && #[trigger] q[k] as int == p[m] as int;
            assert(j > m) by {
                if j < m {
                    assert(q[j] == q[m]);
                }
            }
            assert(i > m) by {
                if i < m {
                    assert(p[i] == p[m]);
                }
            }
            assert(comes_first(le, p[m] as int, p[j] as int));
            assert(comes_first(le, q[m] as int, q[i] as int));
            assert(false);
        }
    }
}

/// There is at most one stable arrangement of a sequence.
pub proof fn arranged_unique<A>(
    s: Seq<A>,
    t: Seq<A>,
    u: Seq<A>,
    le: spec_fn(int, int) -> bool,
)
    requires
        arranged(s, t, le),
        arranged(s, u, le),
    ensures
        t == u,
{
    let p = choose|order: Seq<usize>| #[trigger]
        is_stable_order(s.len(), le, order) && t == picked(s, order);
    let q = choose|order: Seq<usize>| #[trigger]
        is_stable_order(s.len(), le, order) && u == picked(s, order);
    stable_order_unique(s.len(), le, p, q);
}

/// A stable arrangement keeps every item, as often as it occurs.
pub proof fn arranged_keeps_items<A>(s: Seq<A>, t: Seq<A>, le: spec_fn(int, int) -> bool)
    requires
        arranged(s, t, le),
    ensures
        t.to_multiset() == s.to_multiset(),
        t.len() == s.len(),
{
    let p = choose|order: Seq<usize>| #[trigger]
        is_stable_order(s.len(), le, order) && t == picked(s, order);
    let ints = Seq::new(p.len(), |k: int| p[k] as int);
    if s.len() > 0 {
        stable_order_lists_all(s.len(), le, p, 0);
    }
    assert forall|i: int| 0 <= i < s.len() implies #[trigger] ints.contains(i) by {
        stable_order_lists_all(s.len(), le, p, i);
        let k = choose|k: int| 0 <= k < p.len() && #[trigger] p[k] as int == i;
        assert(ints[k] == i);
    }
    picked_keeps_items(s, ints);
    assert(t =~= Seq::new(ints.len(), |k: int| s[ints[k]]));
}

proof fn picked_keeps_items<A>(s: Seq<A>, p: Seq<int>)
    requires
        p.len() == s.len(),
        s.len() > 0 ==> p.no_duplicates(),
        forall|k: int| 0 <= k < p.len() ==> 0 <= #[trigger] p[k] < s.len(),
        forall|i: int| 0 <= i < s.len() ==> #[trigger] p.contains(i),
    ensures
        Seq::new(p.len(), |k: int| s[p[k]]).to_multiset() == s.to_multiset(),
    decreases s.len(),
{
    broadcast use vstd::seq_lib::group_to_multiset_ensures;

    let t = Seq::new(p.len(), |k: int| s[p[k]]);
    if s.len() == 0 {
        assert(t =~= s);
    } else {
        let last = s.len() - 1;
        assert(p.contains(last));
        let at = choose|k: int| 0 <= k < p.len() && p[k] == last;
        let rest = p.remove(at);
        let front = s.drop_last();
        assert forall|k: int| 0 <= k < rest.len() implies 0 <= #[trigger] rest[k] < front.len() by {
            if k < at {
                assert(rest[k] == p[k]);
            } else {
                assert(rest[k] == p[k + 1]);
            }
        }
        assert forall|i: int| 0 <= i < front.len() implies #[trigger] rest.contains(i) by {
            assert(p.contains(i));
            let k = choose|k: int| 0 <= k < p.len() && p[k] == i;
            if k < at {
                assert(rest[k] == p[k]);
            } else {
                assert(rest[k - 1] == p[k]);
            }
        }
        picked_keeps_items(front, rest);
        assert(t.remove(at) =~= Seq::new(rest.len(), |k: int| front[rest[k]]));
        assert(t[at] == s.last());
        assert(front.push(s.last()) =~= s);
        vstd::seq_lib::to_multiset_remove(t, at);
        assert(t.to_multiset().count(s.last()) > 0) by {
            assert(t.contains(t[at]));
        }
        assert(t.to_multiset() =~= front.to_multiset().insert(s.last()));
    }
}

/// How many items at the front of `p` rank no later than `x`.
proof fn front_rank(le: spec_fn(int, int) -> bool, p: Seq<usize>, x: int, from: int) -> (m: int)
    requires
        0 <= from <= p.len(),
        forall|k: int| 0 <= k < from ==> le(#[trigger] p[k] as int, x),
    ensures
        0 <= m <= p.len(),
        forall|k: int| 0 <= k < m ==> le(#[trigger] p[k] as int, x),
        m < p.len() ==> !le(p[m] as int, x),
    decreases p.len() - from,
{
    if from < p.len() && le(p[from] as int, x) {
        front_rank(le, p, x, from + 1)
    } else {
        from
    }
}

/// Under a total preorder, items can always be put into a stable order.
pub proof fn stable_order_exists(n: nat, le: spec_fn(int, int) -> bool) -> (order: Seq<usize>)
    requires
        n <= usize::MAX,
        forall|i: int, j: int| 0 <= i < n && 0 <= j < n ==> #[trigger] le(i, j) || le(j, i),
        forall|i: int, j: int, k: int|
            0 <= i < n && 0 <= j < n && 0 <= k < n && #[trigger] le(i, j) && #[trigger] le(j, k)
                ==> le(i, k),
    ensures
        is_stable_order(n, le, order),
    decreases n,
{
    if n == 0 {
        Seq::empty()
    } else {
        let p = stable_order_exists((n - 1) as nat, le);
        let x = n - 1;
        let m = front_rank(le, p, x, 0);
        let order = p.insert(m, x as usize);
        assert forall|k: int| m <= k < p.len() implies !le(#[trigger] p[k] as int, x) && le(
            x,
            p[k] as int,
        ) by {
            if k > m {
                assert(comes_first(le, p[m] as int, p[k] as int));
                assert(le(p[m] as int, p[k] as int));
            }
            assert(le(p[k] as int, x) || le(x, p[k] as int));
        }
        assert forall|a: int, b: int| 0 <= a < b < order.len() implies comes_first(
            le,
            #[trigger] order[a] as int,
            #[trigger] order[b] as int,
        ) by {
            if a == m {
                assert(order[b] == p[b - 1]);
            } else if b == m {
                assert(order[a] == p[a]);
            } else {
                let i = if a < m {
                    a
                } else {
                    a - 1
                };
                let j = if b < m {
                    b
                } else {
                    b - 1
                };
                assert(order[a] == p[i] && order[b] == p[j]);
                assert(comes_first(le, p[i] as int, p[j] as int));
            }
        }
        assert forall|k: int| 0 <= k < order.len() implies (#[trigger] order[k] as int) < n by {
            if k < m {
                assert(order[k] == p[k]);
            } else if k > m {
                assert(order[k] == p[k - 1]);
            }
        }
        order
    }
}

} // verus!
