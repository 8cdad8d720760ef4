//! Multi-node scenarios: the verified protocol steps are driven by an
//! in-memory transport that carries their results between nodes.

use std::cell::RefCell;

use chord_node::digest::hash_addr;
use chord_node::info::NodeInfo;
use chord_node::node::Node;
use chord_node::routing::RouteStep;
use chord_node::stabilize::PredecessorReply;

struct Sim {
    nodes: Vec<RefCell<Node>>,
    alive: Vec<bool>,
}

fn new_sim(addresses: &[&str]) -> Sim {
    let nodes: Vec<RefCell<Node>> = addresses
        .iter()
        .map(|a| RefCell::new(Node::new(hash_addr(a), a.to_string())))
        .collect();
    let alive = vec![true; nodes.len()];
    Sim { nodes, alive }
}

fn find_node(sim: &Sim, address: &str) -> Option<usize> {
    (0..sim.nodes.len()).find(|&i| sim.alive[i] && sim.nodes[i].borrow().addr == address)
}

fn find_successor(sim: &Sim, entry: usize, target: u64, depth: usize) -> Option<NodeInfo> {
    if depth == 0 || !sim.alive[entry] {
        return None;
    }
    let self_id = sim.nodes[entry].borrow().id;
    let step = sim.nodes[entry].borrow().find_successor_step(target);
    match step {
        RouteStep::Answer(a) => Some(a),
        RouteStep::Forward(hops) => {
            for h in &hops {
                if h.id == self_id {
                    continue;
                }
                if let Some(j) = find_node(sim, &h.address) {
                    if let Some(r) = find_successor(sim, j, target, depth - 1) {
                        return Some(r);
                    }
                }
            }
            // every finger hop failed: fall back to the successor list
            let succs = sim.nodes[entry].borrow().get_successor_list();
            for s in &succs {
                if s.id == self_id {
                    continue;
                }
                if let Some(j) = find_node(sim, &s.address) {
                    if let Some(r) = find_successor(sim, j, target, depth - 1) {
                        return Some(r);
                    }
                }
            }
            None
        }
    }
}

fn stabilize(sim: &Sim, i: usize) {
    if !sim.alive[i] {
        return;
    }
    let me = {
        let n = sim.nodes[i].borrow();
        NodeInfo {
            id: n.id,
            address: n.addr.clone(),
        }
    };
    let observed = sim.nodes[i].borrow().get_successor();
    let reply = match find_node(sim, &observed.address) {
        None => PredecessorReply::Unreachable,
        Some(j) => {
            let pred = sim.nodes[j].borrow().get_predecessor();
            match pred {
                Some(p) => PredecessorReply::Known(p),
                None => PredecessorReply::Absent,
            }
        }
    };
    let proceed = sim.nodes[i].borrow_mut().stabilize_apply(&observed, reply);
    if !proceed {
        return;
    }
    let s2 = sim.nodes[i].borrow().get_successor();
    if let Some(j) = find_node(sim, &s2.address) {
        let plan = sim.nodes[j].borrow_mut().notify(me);
        if let Some(plan) = plan {
            if let Some(t) = find_node(sim, &plan.target.address) {
                sim.nodes[t].borrow_mut().transfer_keys(&plan.keys);
                sim.nodes[j].borrow_mut().transfer_ack(&plan.keys);
            }
        }
        let received = sim.nodes[j].borrow().get_successor_list();
        sim.nodes[i].borrow_mut().apply_successor_list(received);
    }
}

fn fix_all_fingers(sim: &Sim, i: usize) {
    if !sim.alive[i] {
        return;
    }
    for f in 0..64 {
        let target = sim.nodes[i].borrow().fix_finger_target(f);
        if let Some(info) = find_successor(sim, i, target, 32) {
            sim.nodes[i].borrow_mut().apply_fix_finger(f, info);
        }
    }
}

fn check_predecessor(sim: &Sim, i: usize) {
    if !sim.alive[i] {
        return;
    }
    let pred = sim.nodes[i].borrow().get_predecessor();
    if let Some(p) = pred {
        if find_node(sim, &p.address).is_none() {
            sim.nodes[i].borrow_mut().predecessor_failed();
        }
    }
}

fn maintain_replication(sim: &Sim, i: usize) {
    if !sim.alive[i] {
        return;
    }
    let pairs = sim.nodes[i].borrow().replication_pairs();
    let targets = sim.nodes[i].borrow().replication_push_targets();
    for t in &targets {
        if let Some(j) = find_node(sim, &t.address) {
            if j != i {
                for (k, v) in &pairs {
                    sim.nodes[j].borrow_mut().replicate(k.clone(), v.clone());
                }
            }
        }
    }
}

fn tick(sim: &Sim) {
    for i in 0..sim.nodes.len() {
        stabilize(sim, i);
        fix_all_fingers(sim, i);
        check_predecessor(sim, i);
        maintain_replication(sim, i);
    }
}

/// A maintenance round without the replica push, to observe where a key
/// sits right after a transfer, before replication spreads copies again.
fn tick_no_replication(sim: &Sim) {
    for i in 0..sim.nodes.len() {
        stabilize(sim, i);
        fix_all_fingers(sim, i);
        check_predecessor(sim, i);
    }
}

fn join(sim: &Sim, i: usize, via: usize) -> bool {
    let id = sim.nodes[i].borrow().id;
    match find_successor(sim, via, id, 32) {
        Some(info) => {
            sim.nodes[i].borrow_mut().join(info);
            true
        }
        None => false,
    }
}

fn put(sim: &Sim, entry: usize, key: &str, value: &str) -> bool {
    let key_id = hash_addr(key);
    let owner = match find_successor(sim, entry, key_id, 32) {
        Some(o) => o,
        None => return false,
    };
    let oj = match find_node(sim, &owner.address) {
        Some(j) => j,
        None => return false,
    };
    let targets = sim.nodes[oj]
        .borrow_mut()
        .put_local(key.to_string(), value.to_string());
    for t in &targets {
        if let Some(j) = find_node(sim, &t.address) {
            if j != oj {
                sim.nodes[j]
                    .borrow_mut()
                    .replicate(key.to_string(), value.to_string());
            }
        }
    }
    true
}

fn get(sim: &Sim, entry: usize, key: &str) -> Option<String> {
    let key_id = hash_addr(key);
    let owner = find_successor(sim, entry, key_id, 32)?;
    let oj = find_node(sim, &owner.address)?;
    let r = sim.nodes[oj].borrow().get_local(&key.to_string());
    if r.found {
        Some(r.value)
    } else {
        None
    }
}

fn leave(sim: &mut Sim, i: usize) {
    let plan = sim.nodes[i].borrow().leave_plan();
    if let Some((target, keys)) = plan {
        if let Some(j) = find_node(sim, &target.address) {
            sim.nodes[j].borrow_mut().transfer_keys(&keys);
        }
    }
    sim.alive[i] = false;
}

fn holds_key(sim: &Sim, i: usize, key: &str) -> bool {
    sim.nodes[i].borrow().get_local(&key.to_string()).found
}

fn successor_index(sim: &Sim, i: usize) -> usize {
    let s = sim.nodes[i].borrow().get_successor();
    find_node(sim, &s.address).expect("successor should be alive")
}

#[test]
fn three_node_ring_formation() {
    let sim = new_sim(&["127.0.0.1:5001", "127.0.0.1:5002", "127.0.0.1:5003"]);
    assert!(join(&sim, 1, 0), "second node failed to join the first");
    assert!(join(&sim, 2, 0), "third node failed to join the first");
    for _ in 0..10 {
        tick(&sim);
    }
    // following successors from any node visits the other two and returns
    for start in 0..3 {
        let one = successor_index(&sim, start);
        let two = successor_index(&sim, one);
        let three = successor_index(&sim, two);
        assert_ne!(one, start);
        assert_ne!(two, start);
        assert_ne!(one, two);
        assert_eq!(three, start, "three hops must close the ring");
        // each node's predecessor is the node two successor hops away
        let pred = sim.nodes[start]
            .borrow()
            .get_predecessor()
            .expect("predecessor must be known once stable");
        assert_eq!(pred.id, sim.nodes[two].borrow().id);
    }
}

#[test]
fn unique_ownership_once_stable() {
    let sim = new_sim(&["127.0.0.1:5001", "127.0.0.1:5002", "127.0.0.1:5003"]);
    assert!(join(&sim, 1, 0));
    assert!(join(&sim, 2, 0));
    for _ in 0..10 {
        tick(&sim);
    }
    for key in ["alpha", "beta", "gamma", "delta"] {
        let key_id = hash_addr(key);
        // every entry point agrees on the owner
        let owner0 = find_successor(&sim, 0, key_id, 32).unwrap();
        let owner1 = find_successor(&sim, 1, key_id, 32).unwrap();
        let owner2 = find_successor(&sim, 2, key_id, 32).unwrap();
        assert_eq!(owner0.id, owner1.id);
        assert_eq!(owner1.id, owner2.id);
        // and exactly one node's ownership interval contains the key
        let mut owners = 0;
        for i in 0..3 {
            let n = sim.nodes[i].borrow();
            let pred = n.get_predecessor().unwrap();
            if Node::is_in_range_inclusive(key_id, pred.id, n.id) {
                owners += 1;
                assert_eq!(n.id, owner0.id);
            }
        }
        assert_eq!(owners, 1, "exactly one owner for key {}", key);
    }
}

#[test]
fn routed_put_get() {
    let sim = new_sim(&["127.0.0.1:5001", "127.0.0.1:5002", "127.0.0.1:5003"]);
    assert!(join(&sim, 1, 0));
    assert!(join(&sim, 2, 0));
    for _ in 0..10 {
        tick(&sim);
    }
    assert!(put(&sim, 0, "test_key", "test_value"), "put failed");
    assert_eq!(
        get(&sim, 2, "test_key").as_deref(),
        Some("test_value"),
        "get through another node must find the value"
    );
}

#[test]
fn put_idempotent_across_entry_nodes() {
    let sim = new_sim(&["127.0.0.1:5001", "127.0.0.1:5002", "127.0.0.1:5003"]);
    assert!(join(&sim, 1, 0));
    assert!(join(&sim, 2, 0));
    for _ in 0..10 {
        tick(&sim);
    }
    for entry in [0, 1, 2, 1, 0] {
        assert!(put(&sim, entry, "k", "v"));
    }
    for entry in 0..3 {
        assert_eq!(get(&sim, entry, "k").as_deref(), Some("v"));
    }
}

#[test]
fn replica_coverage_after_maintenance() {
    let sim = new_sim(&["127.0.0.1:5001", "127.0.0.1:5002", "127.0.0.1:5003"]);
    assert!(join(&sim, 1, 0));
    assert!(join(&sim, 2, 0));
    for _ in 0..10 {
        tick(&sim);
    }
    assert!(put(&sim, 0, "covered", "value"));
    for _ in 0..3 {
        tick(&sim);
    }
    // the primary and each of its R = 2 successors hold the key: with three
    // nodes, that is every node
    for i in 0..3 {
        assert!(holds_key(&sim, i, "covered"), "node {} must hold a copy", i);
    }
}

#[test]
fn join_triggered_transfer() {
    let key = "test_key";
    let key_id = hash_addr(key);
    let addr_a = "127.0.0.1:5001";
    let id_a = hash_addr(addr_a);
    // find an address whose id takes the key over from the single node:
    // the key must fall in (id_a, id_b]
    let mut addr_b = String::new();
    for port in 5002..62000 {
        let cand = format!("127.0.0.1:{}", port);
        let id_b = hash_addr(&cand);
        if Node::is_in_range_inclusive(key_id, id_a, id_b)
            && !Node::is_in_range_inclusive(key_id, id_b, id_a)
        {
            addr_b = cand;
            break;
        }
    }
    assert!(!addr_b.is_empty(), "no suitable address found");

    let sim = new_sim(&[addr_a, &addr_b]);
    assert!(put(&sim, 0, key, "value1"));
    assert!(holds_key(&sim, 0, key));
    assert!(join(&sim, 1, 0), "new node failed to join");
    for _ in 0..5 {
        tick_no_replication(&sim);
    }
    assert!(holds_key(&sim, 1, key), "the new node must hold the key");
    assert!(!holds_key(&sim, 0, key), "the old owner must have let it go");
    assert_eq!(get(&sim, 0, key).as_deref(), Some("value1"));
}

#[test]
fn graceful_leave_reclaim() {
    let key = "test_key";
    let key_id = hash_addr(key);
    let addr_a = "127.0.0.1:5001";
    let id_a = hash_addr(addr_a);
    let mut addr_b = String::new();
    for port in 5002..62000 {
        let cand = format!("127.0.0.1:{}", port);
        let id_b = hash_addr(&cand);
        if Node::is_in_range_inclusive(key_id, id_a, id_b)
            && !Node::is_in_range_inclusive(key_id, id_b, id_a)
        {
            addr_b = cand;
            break;
        }
    }
    let mut sim = new_sim(&[addr_a, &addr_b]);
    assert!(put(&sim, 0, key, "value1"));
    assert!(join(&sim, 1, 0));
    for _ in 0..5 {
        tick(&sim);
    }
    assert!(holds_key(&sim, 1, key));
    leave(&mut sim, 1);
    for _ in 0..3 {
        tick(&sim);
    }
    assert!(holds_key(&sim, 0, key), "the key must be back on the survivor");
    assert_eq!(get(&sim, 0, key).as_deref(), Some("value1"));
}

#[test]
fn crash_with_replication() {
    let sim = new_sim(&["127.0.0.1:5001", "127.0.0.1:5002", "127.0.0.1:5003"]);
    assert!(join(&sim, 1, 0));
    assert!(join(&sim, 2, 0));
    for _ in 0..10 {
        tick(&sim);
    }
    assert!(put(&sim, 1, "k", "v"));
    for _ in 0..2 {
        tick(&sim);
    }
    // abort the primary without any hand-off
    let key_id = hash_addr("k");
    let owner = find_successor(&sim, 0, key_id, 32).unwrap();
    let primary = find_node(&sim, &owner.address).unwrap();
    let mut sim = sim;
    sim.alive[primary] = false;
    let survivor = (primary + 1) % 3;
    for _ in 0..10 {
        tick(&sim);
    }
    assert_eq!(
        get(&sim, survivor, "k").as_deref(),
        Some("v"),
        "a replica must keep the key retrievable after the primary crashes"
    );
}

#[test]
fn large_ring_put_get() {
    let addresses: Vec<String> = (0..20).map(|i| format!("127.0.0.1:{}", 61000 + i)).collect();
    let addr_refs: Vec<&str> = addresses.iter().map(|s| s.as_str()).collect();
    let sim = new_sim(&addr_refs);
    for i in 1..20 {
        assert!(join(&sim, i, 0), "node {} failed to join", i);
        for _ in 0..3 {
            tick(&sim);
        }
    }
    for _ in 0..30 {
        tick(&sim);
    }
    // the ring must be properly formed: 20 hops from node 0 return to it
    let mut seen = vec![false; 20];
    let mut cur = 0;
    for _ in 0..20 {
        assert!(!seen[cur], "ring revisits a node early");
        seen[cur] = true;
        cur = successor_index(&sim, cur);
    }
    assert_eq!(cur, 0, "ring is not properly formed");
    assert!(seen.iter().all(|&s| s), "not all nodes are in the ring");

    let pairs = [
        ("key1", "value1"),
        ("key2", "value2"),
        ("key3", "value3"),
        ("hello", "world"),
        ("foo", "bar"),
        ("test", "data"),
        ("chord", "dht"),
        ("distributed", "hash_table"),
    ];
    for (i, (k, v)) in pairs.iter().enumerate() {
        assert!(put(&sim, (i * 2) % 20, k, v), "put {} failed", k);
    }
    for _ in 0..3 {
        tick(&sim);
    }
    for (i, (k, v)) in pairs.iter().enumerate() {
        let entry = (i * 2 + 10) % 20;
        assert_eq!(get(&sim, entry, k).as_deref(), Some(*v), "get {} failed", k);
    }
    // the union of all stored keys is exactly the put keys
    let mut union: Vec<String> = Vec::new();
    for i in 0..20 {
        for k in sim.nodes[i].borrow().summary().stored_keys {
            if !union.contains(&k) {
                union.push(k);
            }
        }
    }
    union.sort();
    let mut expected: Vec<String> = pairs.iter().map(|(k, _)| k.to_string()).collect();
    expected.sort();
    assert_eq!(union, expected);
}

#[test]
fn ring_closure_exact_hops() {
    let sim = new_sim(&["127.0.0.1:5001", "127.0.0.1:5002", "127.0.0.1:5003"]);
    assert!(join(&sim, 1, 0));
    assert!(join(&sim, 2, 0));
    for _ in 0..10 {
        tick(&sim);
    }
    for start in 0..3 {
        let mut cur = start;
        for hop in 1..=3 {
            cur = successor_index(&sim, cur);
            if hop < 3 {
                assert_ne!(cur, start, "returned early after {} hops", hop);
            }
        }
        assert_eq!(cur, start, "must return after exactly three hops");
    }
}
