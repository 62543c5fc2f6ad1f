use urcu::common::list::{
    cds_list_add, cds_list_del, cds_list_empty, cds_list_move, cds_list_splice, new, CdsListHead,
};
use urcu::utils::list as plain;

/// The nodes of the list headed by `head`, following `next`.
fn forward(nodes: &Vec<CdsListHead>, head: usize) -> Vec<usize> {
    let mut out = Vec::new();
    let mut cur = nodes[head].next;
    while cur != head {
        out.push(cur);
        cur = nodes[cur].next;
        assert!(out.len() <= nodes.len());
    }
    out
}

/// The nodes of the list headed by `head`, following `prev`, reversed.
fn backward(nodes: &Vec<CdsListHead>, head: usize) -> Vec<usize> {
    let mut out = Vec::new();
    let mut cur = nodes[head].prev;
    while cur != head {
        out.push(cur);
        cur = nodes[cur].prev;
        assert!(out.len() <= nodes.len());
    }
    out.reverse();
    out
}

fn arena(n: usize) -> Vec<CdsListHead> {
    let mut nodes = Vec::new();
    for i in 0..n {
        assert_eq!(new(&mut nodes), i);
    }
    nodes
}

#[test]
fn new_head_is_empty_list() {
    let mut nodes = Vec::new();
    let h = new(&mut nodes);
    assert_eq!(h, 0);
    assert_eq!(nodes[0].next, 0);
    assert_eq!(nodes[0].prev, 0);
    assert_eq!(nodes[0].data, -1);
    assert!(cds_list_empty(&nodes, h));
    let g = new(&mut nodes);
    assert_eq!(g, 1);
    assert!(cds_list_empty(&nodes, g));
}

#[test]
fn add_puts_node_at_front() {
    let mut nodes = arena(4);
    cds_list_add(&mut nodes, 0, 1);
    assert!(!cds_list_empty(&nodes, 0));
    assert_eq!(forward(&nodes, 0), vec![1]);
    cds_list_add(&mut nodes, 0, 2);
    cds_list_add(&mut nodes, 0, 3);
    assert_eq!(forward(&nodes, 0), vec![3, 2, 1]);
    assert_eq!(backward(&nodes, 0), vec![3, 2, 1]);
    assert_eq!(nodes[0].next, 3);
    assert_eq!(nodes[3].prev, 0);
    assert_eq!(nodes[1].next, 0);
    assert_eq!(nodes[0].prev, 1);
}

#[test]
fn add_keeps_payloads() {
    let mut nodes = arena(3);
    nodes[1].data = 7;
    nodes[2].data = 9;
    cds_list_add(&mut nodes, 0, 1);
    cds_list_add(&mut nodes, 0, 2);
    assert_eq!(nodes[0].data, -1);
    assert_eq!(nodes[1].data, 7);
    assert_eq!(nodes[2].data, 9);
}

#[test]
fn del_removes_node_and_keeps_its_links() {
    let mut nodes = arena(4);
    cds_list_add(&mut nodes, 0, 1);
    cds_list_add(&mut nodes, 0, 2);
    cds_list_add(&mut nodes, 0, 3);
    cds_list_del(&mut nodes, 2);
    assert_eq!(forward(&nodes, 0), vec![3, 1]);
    assert_eq!(backward(&nodes, 0), vec![3, 1]);
    assert_eq!(nodes[2].next, 1);
    assert_eq!(nodes[2].prev, 3);
    cds_list_del(&mut nodes, 3);
    cds_list_del(&mut nodes, 1);
    assert!(cds_list_empty(&nodes, 0));
    assert_eq!(nodes[0].prev, 0);
}

#[test]
fn del_undoes_add() {
    let mut nodes = arena(4);
    cds_list_add(&mut nodes, 0, 1);
    cds_list_add(&mut nodes, 0, 2);
    let before: Vec<(usize, usize)> = nodes.iter().map(|n| (n.next, n.prev)).collect();
    cds_list_add(&mut nodes, 0, 3);
    cds_list_del(&mut nodes, 3);
    for i in 0..3 {
        assert_eq!((nodes[i].next, nodes[i].prev), before[i]);
    }
    assert_eq!((nodes[3].next, nodes[3].prev), (2, 0));
}

#[test]
fn move_within_list_brings_node_to_front() {
    let mut nodes = arena(4);
    cds_list_add(&mut nodes, 0, 1);
    cds_list_add(&mut nodes, 0, 2);
    cds_list_add(&mut nodes, 0, 3);
    cds_list_move(&mut nodes, 1, 0);
    assert_eq!(forward(&nodes, 0), vec![1, 3, 2]);
    assert_eq!(backward(&nodes, 0), vec![1, 3, 2]);
}

#[test]
fn move_between_lists() {
    let mut nodes = arena(5);
    cds_list_add(&mut nodes, 0, 2);
    cds_list_add(&mut nodes, 0, 3);
    cds_list_add(&mut nodes, 1, 4);
    cds_list_move(&mut nodes, 2, 1);
    assert_eq!(forward(&nodes, 0), vec![3]);
    assert_eq!(forward(&nodes, 1), vec![2, 4]);
    assert_eq!(backward(&nodes, 1), vec![2, 4]);
}

#[test]
fn move_into_empty_list() {
    let mut nodes = arena(3);
    cds_list_add(&mut nodes, 0, 2);
    cds_list_move(&mut nodes, 2, 1);
    assert!(cds_list_empty(&nodes, 0));
    assert_eq!(forward(&nodes, 1), vec![2]);
}

#[test]
fn splice_puts_nodes_in_front() {
    let mut nodes = arena(6);
    cds_list_add(&mut nodes, 0, 3);
    cds_list_add(&mut nodes, 0, 2);
    cds_list_add(&mut nodes, 1, 5);
    cds_list_add(&mut nodes, 1, 4);
    cds_list_splice(&mut nodes, 0, 1);
    assert_eq!(forward(&nodes, 1), vec![2, 3, 4, 5]);
    assert_eq!(backward(&nodes, 1), vec![2, 3, 4, 5]);
    // the spliced list's head keeps its old links
    assert_eq!(nodes[0].next, 2);
    assert_eq!(nodes[0].prev, 3);
}

#[test]
fn splice_into_empty_list() {
    let mut nodes = arena(4);
    cds_list_add(&mut nodes, 0, 3);
    cds_list_add(&mut nodes, 0, 2);
    cds_list_splice(&mut nodes, 0, 1);
    assert_eq!(forward(&nodes, 1), vec![2, 3]);
    assert_eq!(backward(&nodes, 1), vec![2, 3]);
}

#[test]
fn splice_of_empty_list_changes_nothing() {
    let mut nodes = arena(3);
    cds_list_add(&mut nodes, 1, 2);
    let before: Vec<(usize, usize)> = nodes.iter().map(|n| (n.next, n.prev)).collect();
    cds_list_splice(&mut nodes, 0, 1);
    let after: Vec<(usize, usize)> = nodes.iter().map(|n| (n.next, n.prev)).collect();
    assert_eq!(before, after);
}

#[test]
fn plain_list_operations() {
    let mut nodes = Vec::new();
    for i in 0..5 {
        assert_eq!(plain::new(&mut nodes), i);
    }
    assert!(plain::cds_list_empty(&nodes, 0));
    plain::cds_list_add(&mut nodes, 0, 1);
    plain::cds_list_add(&mut nodes, 0, 2);
    plain::cds_list_add(&mut nodes, 3, 4);
    assert!(!plain::cds_list_empty(&nodes, 0));
    assert_eq!(nodes[0].next, 2);
    assert_eq!(nodes[2].next, 1);
    assert_eq!(nodes[1].next, 0);
    plain::cds_list_move(&mut nodes, 1, 3);
    assert_eq!(nodes[0].next, 2);
    assert_eq!(nodes[2].next, 0);
    assert_eq!(nodes[3].next, 1);
    assert_eq!(nodes[1].next, 4);
    plain::cds_list_splice(&mut nodes, 3, 0);
    assert_eq!(nodes[0].next, 1);
    assert_eq!(nodes[1].next, 4);
    assert_eq!(nodes[4].next, 2);
    assert_eq!(nodes[2].next, 0);
    assert_eq!(nodes[0].prev, 2);
    plain::cds_list_del(&mut nodes, 4);
    assert_eq!(nodes[1].next, 2);
    assert_eq!(nodes[2].prev, 1);
}
