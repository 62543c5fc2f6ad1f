use vstd::prelude::*;
use crate::common::ring::{
    Link, in_bounds, set_next, set_prev, add_links, del_links, move_links, splice_links,
    is_list, disjoint, lemma_add_list, lemma_del_list, lemma_empty_list, lemma_splice_list,
    lemma_move_within_list, lemma_move_between_lists, lemma_add_keeps_other_list,
    lemma_del_keeps_other_list, lemma_push_new_list, lemma_push_keeps_list,
};

verus! {

/// A node of an intrusive circular doubly-linked list. Nodes live in an
/// arena (a `Vec`) and link to one another by index; a list is named by its
/// head node, and an empty list's head links to itself.
#[derive(Clone, Copy)]
pub struct CdsListHead {
    pub next: usize,
    pub prev: usize,
    pub data: i32,
}

/// The links of every node of the arena.
pub open spec fn links(nodes: Seq<CdsListHead>) -> Seq<Link> {
    Seq::new(nodes.len(), |i: int| Link { next: nodes[i].next, prev: nodes[i].prev })
}

/// The payload of every node of the arena.
pub open spec fn payloads(nodes: Seq<CdsListHead>) -> Seq<i32> {
    Seq::new(nodes.len(), |i: int| nodes[i].data)
}

fn set_next_at(nodes: &mut Vec<CdsListHead>, i: usize, v: usize)
    requires
        i < old(nodes).len(),
    ensures
        final(nodes).len() == old(nodes).len(),
        links(final(nodes)@) == set_next(links(old(nodes)@), i, v),
        payloads(final(nodes)@) == payloads(old(nodes)@),
{
    let n = nodes[i];
    nodes.set(i, CdsListHead { next: v, prev: n.prev, data: n.data });
    assert(links(nodes@) =~= set_next(links(old(nodes)@), i, v));
    assert(payloads(nodes@) =~= payloads(old(nodes)@));
}

fn set_prev_at(nodes: &mut Vec<CdsListHead>, i: usize, v: usize)
    requires
        i < old(nodes).len(),
    ensures
        final(nodes).len() == old(nodes).len(),
        links(final(nodes)@) == set_prev(links(old(nodes)@), i, v),
        payloads(final(nodes)@) == payloads(old(nodes)@),
{
    let n = nodes[i];
    nodes.set(i, CdsListHead { next: n.next, prev: v, data: n.data });
    assert(links(nodes@) =~= set_prev(links(old(nodes)@), i, v));
    assert(payloads(nodes@) =~= payloads(old(nodes)@));
}

/// Adds a new head node to the arena, linked to itself: an empty list.
/// Its payload is -1. Returns its index.
pub fn new(nodes: &mut Vec<CdsListHead>) -> (idx: usize)
    requires
        old(nodes).len() < usize::MAX,
    ensures
        idx == old(nodes).len(),
        final(nodes)@ == old(nodes)@.push(CdsListHead { next: idx, prev: idx, data: -1i32 }),
        is_list(links(final(nodes)@), idx, seq![]),
        forall|h: usize, s: Seq<usize>|
            #[trigger] is_list(links(old(nodes)@), h, s) ==> is_list(links(final(nodes)@), h, s),
        in_bounds(links(old(nodes)@)) ==> in_bounds(links(final(nodes)@)),
{
    let idx = nodes.len();
    nodes.push(CdsListHead { next: idx, prev: idx, data: -1 });
    proof {
        let l = links(old(nodes)@);
        let x = Link { next: idx, prev: idx };
        assert(links(nodes@) =~= l.push(x));
        lemma_push_new_list(l, idx);
        assert forall|h: usize, s: Seq<usize>| #[trigger] is_list(l, h, s) implies is_list(
            links(nodes@),
            h,
            s,
        ) by {
            lemma_push_keeps_list(l, x, h, s);
        }
    }
    idx
}

/// Links `new` in right after `head`.
pub fn cds_list_add(nodes: &mut Vec<CdsListHead>, head: usize, new: usize)
    requires
        head < old(nodes).len(),
        new < old(nodes).len(),
        old(nodes)@[head as int].next < old(nodes).len(),
    ensures
        final(nodes).len() == old(nodes).len(),
        links(final(nodes)@) == add_links(links(old(nodes)@), head, new),
        payloads(final(nodes)@) == payloads(old(nodes)@),
        forall|s: Seq<usize>|
            #[trigger] is_list(links(old(nodes)@), head, s) && new != head && !s.contains(new)
                ==> is_list(links(final(nodes)@), head, seq![new] + s),
        forall|s: Seq<usize>, h2: usize, s2: Seq<usize>|
            #[trigger] is_list(links(old(nodes)@), head, s) && #[trigger] is_list(
                links(old(nodes)@),
                h2,
                s2,
            ) && disjoint(seq![head] + s, seq![h2] + s2) && !(seq![h2] + s2).contains(new)
                ==> is_list(links(final(nodes)@), h2, s2),
        in_bounds(links(old(nodes)@)) ==> in_bounds(links(final(nodes)@)),
{
    let old_next = nodes[head].next;
    set_next_at(nodes, new, old_next);
    set_prev_at(nodes, new, head);
    set_prev_at(nodes, old_next, new);
    set_next_at(nodes, head, new);
    proof {
        let l = links(old(nodes)@);
        assert forall|s: Seq<usize>|
            #[trigger] is_list(l, head, s) && new != head && !s.contains(new) implies is_list(
            links(nodes@),
            head,
            seq![new] + s,
        ) by {
            lemma_add_list(l, head, new, s);
        }
        assert forall|s: Seq<usize>, h2: usize, s2: Seq<usize>|
            #[trigger] is_list(l, head, s) && #[trigger] is_list(l, h2, s2) && disjoint(
                seq![head] + s,
                seq![h2] + s2,
            ) && !(seq![h2] + s2).contains(new) implies is_list(links(nodes@), h2, s2) by {
            lemma_add_keeps_other_list(l, head, new, s, h2, s2);
        }
    }
}

/// Unlinks `elem` from its neighbours; the links of `elem` itself are left
/// as they were.
pub fn cds_list_del(nodes: &mut Vec<CdsListHead>, elem: usize)
    requires
        elem < old(nodes).len(),
        old(nodes)@[elem as int].next < old(nodes).len(),
        old(nodes)@[elem as int].prev < old(nodes).len(),
    ensures
        final(nodes).len() == old(nodes).len(),
        links(final(nodes)@) == del_links(links(old(nodes)@), elem),
        payloads(final(nodes)@) == payloads(old(nodes)@),
        forall|h: usize, s: Seq<usize>, i: int|
            #[trigger] is_list(links(old(nodes)@), h, s) && 0 <= i < s.len() && #[trigger] s[i]
                == elem ==> is_list(links(final(nodes)@), h, s.remove(i)),
        forall|h: usize, s: Seq<usize>, i: int, h2: usize, s2: Seq<usize>|
            #[trigger] is_list(links(old(nodes)@), h, s) && 0 <= i < s.len() && #[trigger] s[i]
                == elem && #[trigger] is_list(links(old(nodes)@), h2, s2) && disjoint(
                seq![h] + s,
                seq![h2] + s2,
            ) ==> is_list(links(final(nodes)@), h2, s2),
        in_bounds(links(old(nodes)@)) ==> in_bounds(links(final(nodes)@)),
{
    let next = nodes[elem].next;
    let prev = nodes[elem].prev;
    set_next_at(nodes, prev, next);
    set_prev_at(nodes, next, prev);
    proof {
        let l = links(old(nodes)@);
        assert forall|h: usize, s: Seq<usize>, i: int|
            #[trigger] is_list(l, h, s) && 0 <= i < s.len() && #[trigger] s[i] == elem implies is_list(
            links(nodes@),
            h,
            s.remove(i),
        ) by {
            lemma_del_list(l, h, s, i);
        }
        assert forall|h: usize, s: Seq<usize>, i: int, h2: usize, s2: Seq<usize>|
            #[trigger] is_list(l, h, s) && 0 <= i < s.len() && #[trigger] s[i] == elem
                && #[trigger] is_list(l, h2, s2) && disjoint(
                seq![h] + s,
                seq![h2] + s2,
            ) implies is_list(links(nodes@), h2, s2) by {
            lemma_del_keeps_other_list(l, h, s, i, h2, s2);
        }
    }
}

/// Whether the list headed by `head` is empty: `head` links to itself.
pub fn cds_list_empty(nodes: &Vec<CdsListHead>, head: usize) -> (b: bool)
    requires
        head < nodes.len(),
    ensures
        b == (nodes@[head as int].next == head),
        forall|s: Seq<usize>| #[trigger] is_list(links(nodes@), head, s) ==> (b <==> s.len() == 0),
{
    proof {
        assert forall|s: Seq<usize>| #[trigger] is_list(links(nodes@), head, s) implies (
        nodes@[head as int].next == head <==> s.len() == 0) by {
            lemma_empty_list(links(nodes@), head, s);
        }
    }
    nodes[head].next == head
}

/// Unlinks `elem` and links it in right after `head`.
pub fn cds_list_move(nodes: &mut Vec<CdsListHead>, elem: usize, head: usize)
    requires
        elem < old(nodes).len(),
        head < old(nodes).len(),
        old(nodes)@[elem as int].next < old(nodes).len(),
        old(nodes)@[elem as int].prev < old(nodes).len(),
        del_links(links(old(nodes)@), elem)[head as int].next < old(nodes).len(),
    ensures
        final(nodes).len() == old(nodes).len(),
        links(final(nodes)@) == move_links(links(old(nodes)@), elem, head),
        payloads(final(nodes)@) == payloads(old(nodes)@),
        forall|s: Seq<usize>, i: int|
            #[trigger] is_list(links(old(nodes)@), head, s) && 0 <= i < s.len() && #[trigger] s[i]
                == elem ==> is_list(links(final(nodes)@), head, seq![elem] + s.remove(i)),
        forall|src: usize, s1: Seq<usize>, i: int, s2: Seq<usize>|
            #[trigger] is_list(links(old(nodes)@), src, s1) && #[trigger] is_list(
                links(old(nodes)@),
                head,
                s2,
            ) && disjoint(seq![src] + s1, seq![head] + s2) && 0 <= i < s1.len() && #[trigger] s1[i]
                == elem ==> is_list(links(final(nodes)@), src, s1.remove(i)) && is_list(
                links(final(nodes)@),
                head,
                seq![elem] + s2,
            ),
        in_bounds(links(old(nodes)@)) ==> in_bounds(links(final(nodes)@)),
{
    let ghost l = links(old(nodes)@);
    cds_list_del(nodes, elem);
    assert(links(nodes@)[head as int].next == nodes@[head as int].next);
    cds_list_add(nodes, head, elem);
    proof {
        assert forall|s: Seq<usize>, i: int|
            #[trigger] is_list(l, head, s) && 0 <= i < s.len() && #[trigger] s[i] == elem implies is_list(
            links(nodes@),
            head,
            seq![elem] + s.remove(i),
        ) by {
            lemma_move_within_list(l, head, s, i);
        }
        assert forall|src: usize, s1: Seq<usize>, i: int, s2: Seq<usize>|
            #[trigger] is_list(l, src, s1) && #[trigger] is_list(l, head, s2) && disjoint(
                seq![src] + s1,
                seq![head] + s2,
            ) && 0 <= i < s1.len() && #[trigger] s1[i] == elem implies is_list(
            links(nodes@),
            src,
            s1.remove(i),
        ) && is_list(links(nodes@), head, seq![elem] + s2) by {
            lemma_move_between_lists(l, src, s1, i, head, s2);
        }
    }
}

/// Splices the nodes of the list headed by `list` in right after `head`, in
/// their order; nothing changes when that list is empty. The links of `list`
/// itself are left as they were.
pub fn cds_list_splice(nodes: &mut Vec<CdsListHead>, list: usize, head: usize)
    requires
        list < old(nodes).len(),
        old(nodes)@[list as int].next < old(nodes).len(),
        old(nodes)@[list as int].next != list ==> {
            &&& old(nodes)@[list as int].prev < old(nodes).len()
            &&& head < old(nodes).len()
            &&& old(nodes)@[head as int].next < old(nodes).len()
        },
    ensures
        final(nodes).len() == old(nodes).len(),
        links(final(nodes)@) == splice_links(links(old(nodes)@), list, head),
        payloads(final(nodes)@) == payloads(old(nodes)@),
        forall|s1: Seq<usize>, s2: Seq<usize>|
            #[trigger] is_list(links(old(nodes)@), list, s1) && #[trigger] is_list(
                links(old(nodes)@),
                head,
                s2,
            ) && disjoint(seq![list] + s1, seq![head] + s2) ==> is_list(
                links(final(nodes)@),
                head,
                s1 + s2,
            ),
        in_bounds(links(old(nodes)@)) ==> in_bounds(links(final(nodes)@)),
{
    let ghost l = links(old(nodes)@);
    if !cds_list_empty(nodes, list) {
        let first = nodes[list].next;
        let last = nodes[list].prev;
        let at = nodes[head].next;
        set_prev_at(nodes, first, head);
        set_next_at(nodes, head, first);
        set_next_at(nodes, last, at);
        set_prev_at(nodes, at, last);
    }
    proof {
        assert forall|s1: Seq<usize>, s2: Seq<usize>|
            #[trigger] is_list(l, list, s1) && #[trigger] is_list(l, head, s2) && disjoint(
                seq![list] + s1,
                seq![head] + s2,
            ) implies is_list(links(nodes@), head, s1 + s2) by {
            lemma_splice_list(l, list, s1, head, s2);
        }
    }
}

} // verus!
