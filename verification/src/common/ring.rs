use vstd::prelude::*;

verus! {

/// The two links of an intrusive list node. Nodes live in an arena and name
/// one another by their index in it.
pub struct Link {
    pub next: usize,
    pub prev: usize,
}

/// Every link names a node of the arena.
pub open spec fn in_bounds(l: Seq<Link>) -> bool {
    forall|i: int| 0 <= i < l.len() ==> (#[trigger] l[i]).next < l.len() && l[i].prev < l.len()
}

pub open spec fn set_next(l: Seq<Link>, i: usize, v: usize) -> Seq<Link> {
    l.update(i as int, Link { next: v, prev: l[i as int].prev })
}

pub open spec fn set_prev(l: Seq<Link>, i: usize, v: usize) -> Seq<Link> {
    l.update(i as int, Link { next: l[i as int].next, prev: v })
}

/// The links after `new` is linked in right after `head`: the four writes of
/// an insertion, in their order.
pub open spec fn add_links(l: Seq<Link>, head: usize, new: usize) -> Seq<Link> {
    let old = l[head as int].next;
    set_next(set_prev(set_prev(set_next(l, new, old), new, head), old, new), head, new)
}

/// The links after `elem` is unlinked from its neighbours. The links of
/// `elem` itself are left as they were.
pub open spec fn del_links(l: Seq<Link>, elem: usize) -> Seq<Link> {
    let next = l[elem as int].next;
    let prev = l[elem as int].prev;
    set_prev(set_next(l, prev, next), next, prev)
}

/// Unlinking `elem`, then linking it in right after `head`.
pub open spec fn move_links(l: Seq<Link>, elem: usize, head: usize) -> Seq<Link> {
    add_links(del_links(l, elem), head, elem)
}

/// The links after the nodes that follow `list` are spliced in right after
/// `head`; nothing changes when `list` is linked to itself alone. The links
/// of `list` itself are left as they were.
pub open spec fn splice_links(l: Seq<Link>, list: usize, head: usize) -> Seq<Link> {
    if l[list as int].next == list {
        l
    } else {
        let first = l[list as int].next;
        let last = l[list as int].prev;
        let at = l[head as int].next;
        set_prev(set_next(set_next(set_prev(l, first, head), head, first), last, at), at, last)
    }
}

pub open spec fn succ(n: int, k: int) -> int {
    if k + 1 >= n {
        0
    } else {
        k + 1
    }
}

pub open spec fn pred(n: int, k: int) -> int {
    if k <= 0 {
        n - 1
    } else {
        k - 1
    }
}

/// `r` is one whole ring of the arena: distinct nodes, each one's `next` the
/// node after it (the last one's the first), each one's `prev` the node
/// before it (the first one's the last).
pub open spec fn ring_of(l: Seq<Link>, r: Seq<usize>) -> bool {
    &&& r.len() >= 1
    &&& r.no_duplicates()
    &&& forall|k: int| 0 <= k < r.len() ==> (#[trigger] r[k]) < l.len()
    &&& forall|k: int|
        0 <= k < r.len() ==> l[(#[trigger] r[k]) as int].next == r[succ(r.len() as int, k)]
    &&& forall|k: int|
        0 <= k < r.len() ==> l[(#[trigger] r[k]) as int].prev == r[pred(r.len() as int, k)]
}

/// The list headed by `head` holds the nodes `s`, in order: `head` and `s`
/// form one ring.
pub open spec fn is_list(l: Seq<Link>, head: usize, s: Seq<usize>) -> bool {
    ring_of(l, seq![head] + s)
}


/// A ring whose nodes keep their links stays a ring.
pub proof fn lemma_ring_frame(l: Seq<Link>, l2: Seq<Link>, r: Seq<usize>)
    requires
        ring_of(l, r),
        l.len() <= l2.len(),
        forall|k: int| 0 <= k < r.len() ==> l2[(#[trigger] r[k]) as int] == l[r[k] as int],
    ensures
        ring_of(l2, r),
{
}

/// Linking a node that is in no list of `head`'s ring right after `head`
/// puts it at the front of the list.
#[verifier::spinoff_prover]
#[verifier::rlimit(40)]
pub proof fn lemma_add_list(l: Seq<Link>, head: usize, new: usize, s: Seq<usize>)
    requires
        is_list(l, head, s),
        new < l.len(),
        new != head,
        !s.contains(new),
    ensures
        is_list(add_links(l, head, new), head, seq![new] + s),
{
    let r = seq![head] + s;
    let n = r.len() as int;
    let r2 = seq![head] + (seq![new] + s);
    let l2 = add_links(l, head, new);
    let old = l[head as int].next;
    assert(r[0] == head);
    assert(old == r[succ(n, 0)]);
    assert forall|k: int| 0 <= k < r.len() implies r[k] != new by {
        if k > 0 {
            assert(s[k - 1] == r[k]);
        }
    }
    assert(r2.len() == n + 1);
    assert forall|k: int| 1 <= k < r2.len() - 1 implies r2[k + 1] == #[trigger] r[k] by {}
    assert(r2[0] == head && r2[1] == new);
    assert(r2.no_duplicates()) by {
        assert forall|i: int, j: int| 0 <= i < r2.len() && 0 <= j < r2.len() && i != j implies r2[i]
            != r2[j] by {
            if i >= 2 && j >= 2 {
                assert(r2[i] == r[i - 1] && r2[j] == r[j - 1]);
            } else if i >= 2 {
                assert(r2[i] == r[i - 1]);
            } else if j >= 2 {
                assert(r2[j] == r[j - 1]);
            }
        }
    }
    assert(l2.len() == l.len());
    assert(l2[new as int] == Link { next: old, prev: head });
    assert(l2[head as int].next == new);
    assert(old == head ==> l2[head as int].prev == new);
    assert(old != head ==> l2[old as int] == Link { next: l[old as int].next, prev: new });
    assert(old != head ==> l2[head as int].prev == l[head as int].prev);
    assert forall|i: int| 0 <= i < l.len() && i != new && i != head && i != old implies l2[i]
        == l[i] by {}
    assert forall|k: int| 0 <= k < r2.len() implies (#[trigger] r2[k]) < l2.len() by {
        if k >= 2 {
            assert(r2[k] == r[k - 1]);
        }
    }
    let n2 = r2.len() as int;
    assert forall|k: int| 0 <= k < r2.len() implies l2[(#[trigger] r2[k]) as int].next == r2[succ(n2, k)]
        && l2[r2[k] as int].prev == r2[pred(n2, k)] by {
        if k == 0 {
            assert(l[r[pred(n, 0)] as int].next == r[succ(n, pred(n, 0))]);
            if n == 1 {
            } else {
                assert(r2[pred(n2, 0)] == r[pred(n, 0)]);
            }
        } else if k == 1 {
            if n == 1 {
                assert(old == head);
            } else {
                assert(r2[2] == r[1]);
            }
        } else {
            let j = k - 1;
            assert(r2[k] == r[j]);
            assert(l[r[j] as int].next == r[succ(n, j)]);
            assert(l[r[j] as int].prev == r[pred(n, j)]);
            if j == 1 {
                assert(r[j] == old);
            } else {
                assert(r[j] != old) by {
                    assert(r[1] == old);
                }
                assert(r2[pred(n2, k)] == r[pred(n, j)]);
            }
            if succ(n, j) == 0 {
                assert(succ(n2, k) == 0);
            } else {
                assert(r2[succ(n2, k)] == r[succ(n, j)]);
            }
        }
    }
}


/// Unlinking the node at position `i` of a list removes it from the list.
#[verifier::spinoff_prover]
#[verifier::rlimit(40)]
pub proof fn lemma_del_list(l: Seq<Link>, head: usize, s: Seq<usize>, i: int)
    requires
        is_list(l, head, s),
        0 <= i < s.len(),
    ensures
        is_list(del_links(l, s[i]), head, s.remove(i)),
{
    let r = seq![head] + s;
    let n = r.len() as int;
    let j = i + 1;
    let e = s[i];
    assert(r[j] == e);
    let p = r[j - 1];
    let o = r[succ(n, j)];
    assert(l[e as int].next == o && l[e as int].prev == p);
    let l2 = del_links(l, e);
    let r2 = seq![head] + s.remove(i);
    let n2 = r2.len() as int;
    assert(n2 == n - 1);
    assert forall|k: int| 0 <= k < j implies #[trigger] r2[k] == r[k] by {}
    assert forall|k: int| j <= k < n2 implies #[trigger] r2[k] == r[k + 1] by {}
    assert(r2.no_duplicates()) by {
        assert forall|a: int, b: int| 0 <= a < n2 && 0 <= b < n2 && a != b implies r2[a] != r2[b] by {
            let a1 = if a < j { a } else { a + 1 };
            let b1 = if b < j { b } else { b + 1 };
            assert(r2[a] == r[a1] && r2[b] == r[b1]);
        }
    }
    assert(l2.len() == l.len());
    assert(l2[p as int].next == o);
    assert(l2[o as int].prev == p);
    assert(p != o ==> l2[p as int].prev == l[p as int].prev);
    assert(p != o ==> l2[o as int].next == l[o as int].next);
    assert forall|x: int| 0 <= x < l.len() && x != p && x != o implies l2[x] == l[x] by {}
    assert forall|k: int| 0 <= k < n2 implies (#[trigger] r2[k]) < l2.len() by {
        if k >= j {
            assert(r2[k] == r[k + 1]);
        }
    }
    assert forall|k: int| 0 <= k < n2 implies l2[(#[trigger] r2[k]) as int].next == r2[succ(n2, k)]
        && l2[r2[k] as int].prev == r2[pred(n2, k)] by {
        let k1 = if k < j { k } else { k + 1 };
        assert(r2[k] == r[k1]);
        assert(l[r[k1] as int].next == r[succ(n, k1)]);
        assert(l[r[k1] as int].prev == r[pred(n, k1)]);
        if k1 == j - 1 {
            assert(r2[k] == p);
        } else {
            assert(r[k1] != p);
            assert(r2[succ(n2, k)] == r[succ(n, k1)]);
        }
        if k1 == succ(n, j) {
            assert(r2[k] == o);
            assert(r2[pred(n2, k)] == p);
        } else {
            assert(r[k1] != o);
            assert(r2[pred(n2, k)] == r[pred(n, k1)]);
        }
    }
}


/// No node lies on both rings.
pub open spec fn disjoint(a: Seq<usize>, b: Seq<usize>) -> bool {
    forall|i: int, j: int| 0 <= i < a.len() && 0 <= j < b.len() ==> a[i] != b[j]
}

/// A list is empty exactly when its head links to itself.
pub proof fn lemma_empty_list(l: Seq<Link>, head: usize, s: Seq<usize>)
    requires
        is_list(l, head, s),
    ensures
        (l[head as int].next == head) <==> (s.len() == 0),
{
    let r = seq![head] + s;
    assert(r[0] == head);
    assert(l[r[0] as int].next == r[succ(r.len() as int, 0)]);
    if s.len() > 0 {
        assert(r[1] != r[0]);
    }
}

/// Splicing the nodes of the list at `list` in after `head`, when the two
/// rings share no node, makes them the front of `head`'s list.
#[verifier::spinoff_prover]
#[verifier::rlimit(40)]
pub proof fn lemma_splice_list(
    l: Seq<Link>,
    list: usize,
    s1: Seq<usize>,
    head: usize,
    s2: Seq<usize>,
)
    requires
        is_list(l, list, s1),
        is_list(l, head, s2),
        disjoint(seq![list] + s1, seq![head] + s2),
    ensures
        is_list(splice_links(l, list, head), head, s1 + s2),
{
    let r1 = seq![list] + s1;
    let r2 = seq![head] + s2;
    let n1 = r1.len() as int;
    let n2 = r2.len() as int;
    assert(r1[0] == list && r2[0] == head);
    lemma_empty_list(l, list, s1);
    if s1.len() == 0 {
        assert(s1 + s2 == s2);
    } else {
        let m = s1.len() as int;
        let first = s1[0];
        let last = s1[m - 1];
        assert(r1[1] == first && r1[m] == last);
        assert(l[list as int].next == r1[succ(n1, 0)]);
        assert(l[list as int].prev == r1[pred(n1, 0)]);
        let at = r2[succ(n2, 0)];
        assert(l[head as int].next == at);
        assert(l[head as int].prev == r2[pred(n2, 0)]);
        let l2 = splice_links(l, list, head);
        let big = seq![head] + (s1 + s2);
        let nb = big.len() as int;
        assert(nb == m + n2);
        assert forall|k: int| 1 <= k <= m implies #[trigger] big[k] == r1[k] by {}
        assert forall|k: int| m < k < nb implies #[trigger] big[k] == r2[k - m] by {}
        assert(big[0] == head);
        // the four written nodes are distinct except first/last and at/head
        assert(first != head && last != head && first != at && last != at) by {
            assert(r1[1] != r2[0] && r1[m] != r2[0]);
            assert(r1[1] != r2[succ(n2, 0)] && r1[m] != r2[succ(n2, 0)]);
        }
        assert(l2.len() == l.len());
        assert(l2[first as int].prev == head);
        assert(l2[head as int].next == first);
        assert(l2[last as int].next == at);
        assert(l2[at as int].prev == last);
        assert(first != last ==> l2[first as int].next == l[first as int].next);
        assert(first != last ==> l2[last as int].prev == l[last as int].prev);
        assert(at != head ==> l2[head as int].prev == l[head as int].prev);
        assert(at != head ==> l2[at as int].next == l[at as int].next);
        assert forall|x: int|
            0 <= x < l.len() && x != first && x != last && x != head && x != at implies l2[x]
            == l[x] by {}
        assert(big.no_duplicates()) by {
            assert forall|a: int, b: int| 0 <= a < nb && 0 <= b < nb && a != b implies big[a]
                != big[b] by {
                if 1 <= a <= m && 1 <= b <= m {
                    assert(big[a] == r1[a] && big[b] == r1[b]);
                } else if 1 <= a <= m {
                    if b == 0 {
                        assert(big[a] == r1[a] && big[b] == r2[0]);
                    } else {
                        assert(big[a] == r1[a] && big[b] == r2[b - m]);
                    }
                } else if 1 <= b <= m {
                    if a == 0 {
                        assert(big[b] == r1[b] && big[a] == r2[0]);
                    } else {
                        assert(big[b] == r1[b] && big[a] == r2[a - m]);
                    }
                } else {
                    let a2 = if a == 0 { 0 } else { a - m };
                    let b2 = if b == 0 { 0 } else { b - m };
                    assert(big[a] == r2[a2] && big[b] == r2[b2]);
                }
            }
        }
        assert forall|k: int| 0 <= k < nb implies l2[(#[trigger] big[k]) as int].next == big[succ(
            nb,
            k,
        )] && l2[big[k] as int].prev == big[pred(nb, k)] && big[k] < l2.len() by {
            if k == 0 {
                assert(big[1] == first);
                if n2 == 1 {
                    assert(at == head);
                    assert(big[pred(nb, 0)] == last);
                } else {
                    assert(big[pred(nb, 0)] == r2[pred(n2, 0)]);
                }
            } else if k <= m {
                assert(big[k] == r1[k]);
                assert(l[r1[k] as int].next == r1[succ(n1, k)]);
                assert(l[r1[k] as int].prev == r1[pred(n1, k)]);
                assert(r1[k] != at && r1[k] != head);
                if k == m {
                    assert(big[succ(nb, k)] == at) by {
                        if n2 == 1 {
                        } else {
                            assert(big[m + 1] == r2[1]);
                        }
                    }
                } else {
                    assert(r1[k] != last);
                    assert(big[succ(nb, k)] == r1[succ(n1, k)]);
                }
                if k == 1 {
                } else {
                    assert(r1[k] != first);
                    assert(big[pred(nb, k)] == r1[pred(n1, k)]);
                }
            } else {
                let k2 = k - m;
                assert(big[k] == r2[k2]);
                assert(l[r2[k2] as int].next == r2[succ(n2, k2)]);
                assert(l[r2[k2] as int].prev == r2[pred(n2, k2)]);
                assert(r2[k2] != first && r2[k2] != last && r2[k2] != head);
                if succ(n2, k2) == 0 {
                    assert(succ(nb, k) == 0);
                } else {
                    assert(big[succ(nb, k)] == r2[succ(n2, k2)]);
                }
                if k2 == 1 {
                    assert(r2[k2] == at);
                    assert(big[pred(nb, k)] == last);
                } else {
                    assert(r2[k2] != at);
                    assert(big[pred(nb, k)] == r2[pred(n2, k2)]);
                }
            }
        }
    }
}


/// Moving a node of a list to the front of the same list.
#[verifier::spinoff_prover]
#[verifier::rlimit(40)]
pub proof fn lemma_move_within_list(l: Seq<Link>, head: usize, s: Seq<usize>, i: int)
    requires
        is_list(l, head, s),
        0 <= i < s.len(),
    ensures
        is_list(move_links(l, s[i], head), head, seq![s[i]] + s.remove(i)),
{
    let r = seq![head] + s;
    let e = s[i];
    assert(r[i + 1] == e && r[0] == head);
    lemma_del_list(l, head, s, i);
    let l1 = del_links(l, e);
    assert(!s.remove(i).contains(e)) by {
        if s.remove(i).contains(e) {
            let k = choose|k: int| 0 <= k < s.remove(i).len() && s.remove(i)[k] == e;
            let k1 = if k < i { k } else { k + 1 };
            assert(s[k1] == e && r[k1 + 1] == e);
        }
    }
    lemma_add_list(l1, head, e, s.remove(i));
}

/// Moving a node from one list to the front of another, when the two rings
/// share no node: it leaves the first and heads the second.
#[verifier::spinoff_prover]
#[verifier::rlimit(40)]
pub proof fn lemma_move_between_lists(
    l: Seq<Link>,
    src: usize,
    s1: Seq<usize>,
    i: int,
    head: usize,
    s2: Seq<usize>,
)
    requires
        is_list(l, src, s1),
        is_list(l, head, s2),
        disjoint(seq![src] + s1, seq![head] + s2),
        0 <= i < s1.len(),
    ensures
        is_list(move_links(l, s1[i], head), src, s1.remove(i)),
        is_list(move_links(l, s1[i], head), head, seq![s1[i]] + s2),
{
    let r1 = seq![src] + s1;
    let r2 = seq![head] + s2;
    let n1 = r1.len() as int;
    let n2 = r2.len() as int;
    let e = s1[i];
    assert(r1[i + 1] == e && r1[0] == src && r2[0] == head);
    let p = r1[i];
    let o = r1[succ(n1, i + 1)];
    assert(l[e as int].next == o && l[e as int].prev == p);
    lemma_del_list(l, src, s1, i);
    let l1 = del_links(l, e);
    assert forall|k: int| 0 <= k < n2 implies l1[(#[trigger] r2[k]) as int] == l[r2[k] as int] by {
        assert(r2[k] != r1[i] && r2[k] != r1[succ(n1, i + 1)]);
    }
    lemma_ring_frame(l, l1, r2);
    assert(e != head) by {
        assert(r1[i + 1] != r2[0]);
    }
    assert(!s2.contains(e)) by {
        if s2.contains(e) {
            let k = choose|k: int| 0 <= k < s2.len() && s2[k] == e;
            assert(r2[k + 1] == e);
            assert(r1[i + 1] != r2[k + 1]);
        }
    }
    lemma_add_list(l1, head, e, s2);
    let l2 = move_links(l, e, head);
    let at = l1[head as int].next;
    assert(at == r2[succ(n2, 0)]);
    let r1b = seq![src] + s1.remove(i);
    assert forall|k: int| 0 <= k < r1b.len() implies l2[(#[trigger] r1b[k]) as int]
        == l1[r1b[k] as int] by {
        let k1 = if k <= i { k } else { k + 1 };
        assert(r1b[k] == r1[k1]);
        assert(r1[k1] != r2[0] && r1[k1] != r2[succ(n2, 0)]);
        assert(r1[k1] != r1[i + 1]);
    }
    lemma_ring_frame(l1, l2, r1b);
}

/// A node pushed at the end of the arena, linked to itself, is an empty list.
pub proof fn lemma_push_new_list(l: Seq<Link>, n: usize)
    requires
        n == l.len(),
    ensures
        is_list(l.push(Link { next: n, prev: n }), n, seq![]),
{
    let r = seq![n] + Seq::<usize>::empty();
    assert(r.len() == 1 && r[0] == n);
}

/// Pushing a node at the end of the arena leaves every list as it was.
pub proof fn lemma_push_keeps_list(l: Seq<Link>, x: Link, head: usize, s: Seq<usize>)
    requires
        is_list(l, head, s),
    ensures
        is_list(l.push(x), head, s),
{
    let r = seq![head] + s;
    assert forall|k: int| 0 <= k < r.len() implies l.push(x)[(#[trigger] r[k]) as int] == l[r[k] as int] by {}
    lemma_ring_frame(l, l.push(x), r);
}


/// Unlinking a node right after linking it in undoes the insertion: every
/// other node has its links back. (The node keeps the links it was given.)
pub proof fn lemma_del_undoes_add(l: Seq<Link>, head: usize, new: usize)
    requires
        head < l.len(),
        new < l.len(),
        l[head as int].next < l.len(),
        new != head,
        new != l[head as int].next,
        l[l[head as int].next as int].prev == head,
    ensures
        del_links(add_links(l, head, new), new).len() == l.len(),
        forall|i: int|
            0 <= i < l.len() && i != new ==> #[trigger] del_links(add_links(l, head, new), new)[i]
                == l[i],
{
    let old = l[head as int].next;
    let l1 = add_links(l, head, new);
    assert(l1[new as int] == Link { next: old, prev: head });
    let l2 = del_links(l1, new);
    assert forall|i: int| 0 <= i < l.len() && i != new implies #[trigger] l2[i] == l[i] by {}
}

/// Moving a node is unlinking it, then linking it in after `head`.
pub proof fn lemma_move_is_del_then_add(l: Seq<Link>, elem: usize, head: usize)
    ensures
        move_links(l, elem, head) == add_links(del_links(l, elem), head, elem),
{
}

/// Linking a node into one list leaves every list that shares no node with
/// it, and does not hold the new node, as it was.
pub proof fn lemma_add_keeps_other_list(
    l: Seq<Link>,
    head: usize,
    new: usize,
    s: Seq<usize>,
    h2: usize,
    s2: Seq<usize>,
)
    requires
        is_list(l, head, s),
        is_list(l, h2, s2),
        disjoint(seq![head] + s, seq![h2] + s2),
        new < l.len(),
        !(seq![h2] + s2).contains(new),
    ensures
        is_list(add_links(l, head, new), h2, s2),
{
    let r = seq![head] + s;
    let r2 = seq![h2] + s2;
    assert(r[0] == head);
    assert(l[head as int].next == r[succ(r.len() as int, 0)]);
    let l2 = add_links(l, head, new);
    assert forall|k: int| 0 <= k < r2.len() implies l2[(#[trigger] r2[k]) as int] == l[r2[k] as int] by {
        assert(r2[k] != r[0] && r2[k] != r[succ(r.len() as int, 0)]);
        assert(r2[k] != new);
    }
    lemma_ring_frame(l, l2, r2);
}

/// Unlinking a node of one list leaves every list that shares no node with
/// it as it was.
pub proof fn lemma_del_keeps_other_list(
    l: Seq<Link>,
    head: usize,
    s: Seq<usize>,
    i: int,
    h2: usize,
    s2: Seq<usize>,
)
    requires
        is_list(l, head, s),
        0 <= i < s.len(),
        is_list(l, h2, s2),
        disjoint(seq![head] + s, seq![h2] + s2),
    ensures
        is_list(del_links(l, s[i]), h2, s2),
{
    let r = seq![head] + s;
    let r2 = seq![h2] + s2;
    let n = r.len() as int;
    assert(r[i + 1] == s[i]);
    assert(l[s[i] as int].next == r[succ(n, i + 1)]);
    assert(l[s[i] as int].prev == r[pred(n, i + 1)]);
    let l2 = del_links(l, s[i]);
    assert forall|k: int| 0 <= k < r2.len() implies l2[(#[trigger] r2[k]) as int] == l[r2[k] as int] by {
        assert(r2[k] != r[succ(n, i + 1)] && r2[k] != r[pred(n, i + 1)]);
    }
    lemma_ring_frame(l, l2, r2);
}

} // verus!
