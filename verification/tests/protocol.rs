use rasengan::Body;
use rasengan::BroadcastInjected;
use rasengan::BroadcastNode;
use rasengan::BroadcastPayload;
use rasengan::Event;
use rasengan::IdSet;
use rasengan::Init;
use rasengan::InitPayload;
use rasengan::Message;
use rasengan::TopologyMap;
use rasengan::handshake;

fn init_for(node: &str, others: &[&str]) -> Init {
    Init {
        node_id: node.to_string(),
        node_ids: others.iter().map(|s| s.to_string()).collect(),
    }
}

fn msg(src: &str, dst: &str, id: Option<usize>, payload: BroadcastPayload) -> Message<BroadcastPayload> {
    Message {
        src: src.to_string(),
        dst: dst.to_string(),
        body: Body { id, in_reply_to: None, payload },
    }
}

fn id_set(ids: &[usize]) -> IdSet {
    let mut s = IdSet::new();
    for &v in ids {
        s.insert(v);
    }
    s
}

fn topology(pairs: &[(&str, &[&str])]) -> TopologyMap {
    let mut entries: Vec<(String, Vec<String>)> = Vec::new();
    for (k, vs) in pairs {
        entries.push((k.to_string(), vs.iter().map(|s| s.to_string()).collect()));
    }
    TopologyMap { entries }
}

#[test]
fn init_handshake_replies_init_ok() {
    let first = Message {
        src: "c0".to_string(),
        dst: "n1".to_string(),
        body: Body {
            id: Some(1),
            in_reply_to: None,
            payload: InitPayload::Init(init_for("n1", &["n1", "n2"])),
        },
    };
    let (reply, init) = handshake(first).expect("first message is init");
    assert_eq!(reply.src, "n1");
    assert_eq!(reply.dst, "c0");
    assert_eq!(reply.body.id, Some(0));
    assert_eq!(reply.body.in_reply_to, Some(1));
    assert!(matches!(reply.body.payload, InitPayload::InitOk));
    assert_eq!(init.node_id, "n1");
    assert_eq!(init.node_ids, vec!["n1".to_string(), "n2".to_string()]);
}

#[test]
fn handshake_rejects_non_init_first_message() {
    let first = Message {
        src: "c0".to_string(),
        dst: "n1".to_string(),
        body: Body { id: Some(1), in_reply_to: None, payload: InitPayload::InitOk },
    };
    assert!(handshake(first).is_none());
}

#[test]
fn broadcast_then_read_returns_the_message() {
    let mut node = BroadcastNode::from_init(init_for("n1", &["n1"]));
    let out = node.step(Event::Message(msg(
        "c0",
        "n1",
        Some(1),
        BroadcastPayload::Broadcast { message: 5 },
    )));
    assert_eq!(out.len(), 1);
    assert!(matches!(out[0].body.payload, BroadcastPayload::BroadcastOk));
    let out = node.step(Event::Message(msg("c0", "n1", Some(2), BroadcastPayload::Read)));
    assert_eq!(out.len(), 1);
    assert_eq!(out[0].src, "n1");
    assert_eq!(out[0].dst, "c0");
    assert_eq!(out[0].body.in_reply_to, Some(2));
    match &out[0].body.payload {
        BroadcastPayload::ReadOk { messages } => {
            assert_eq!(messages.size(), 1);
            assert!(messages.contains(5));
        }
        other => panic!("expected ReadOk, got {:?}", std::mem::discriminant(other)),
    }
}

#[test]
fn duplicate_broadcasts_deliver_once() {
    let mut node = BroadcastNode::from_init(init_for("n1", &["n1"]));
    node.step(Event::Message(msg("c0", "n1", Some(1), BroadcastPayload::Broadcast { message: 7 })));
    node.step(Event::Message(msg("c0", "n1", Some(2), BroadcastPayload::Broadcast { message: 7 })));
    assert_eq!(node.messages.size(), 1);
    assert!(node.messages.contains(7));
}

#[test]
fn id_set_insert_is_idempotent() {
    let mut once = IdSet::new();
    once.insert(9);
    let mut twice = IdSet::new();
    twice.insert(9);
    twice.insert(9);
    assert_eq!(once.size(), twice.size());
    assert!(twice.contains(9));
}

#[test]
fn delivered_and_knowledge_never_shrink() {
    let mut node = BroadcastNode::from_init(init_for("n1", &["n1", "n2"]));
    node.step(Event::Message(msg("c0", "n1", Some(1), BroadcastPayload::Broadcast { message: 1 })));
    node.step(Event::Message(msg(
        "n2",
        "n1",
        None,
        BroadcastPayload::Gossip { seen: id_set(&[2, 3]) },
    )));
    node.step(Event::Message(msg("c0", "n1", Some(2), BroadcastPayload::Broadcast { message: 4 })));
    node.step(Event::Injected(BroadcastInjected::Gossip));
    node.step(Event::Message(msg("c0", "n1", Some(3), BroadcastPayload::Read)));
    for v in [1, 2, 3, 4] {
        assert!(node.messages.contains(v));
    }
    let known = node.known.get(&"n2".to_string()).expect("entry for n2");
    assert!(known.contains(2));
    assert!(known.contains(3));
}

#[test]
fn reply_swaps_endpoints_and_correlates() {
    let m = msg("a", "b", Some(41), BroadcastPayload::Read);
    let mut ctr: usize = 7;
    let r = m.into_reply(&mut ctr);
    assert_eq!(ctr, 8);
    assert_eq!(r.src, "b");
    assert_eq!(r.dst, "a");
    assert_eq!(r.body.id, Some(8));
    assert_eq!(r.body.in_reply_to, Some(41));
}

#[test]
fn topology_assigns_neighbors_and_gossip_updates_knowledge() {
    let mut node = BroadcastNode::from_init(init_for("n1", &["n1", "n2"]));
    let out = node.step(Event::Message(msg(
        "c0",
        "n1",
        Some(1),
        BroadcastPayload::Topology { topology: topology(&[("n1", &["n2"])]) },
    )));
    assert_eq!(out.len(), 1);
    assert!(matches!(out[0].body.payload, BroadcastPayload::TopologyOk));
    assert_eq!(node.neighbors, vec!["n2".to_string()]);
    let out = node.step(Event::Message(msg(
        "n2",
        "n1",
        None,
        BroadcastPayload::Gossip { seen: id_set(&[5]) },
    )));
    assert!(out.is_empty());
    let known = node.known.get(&"n2".to_string()).expect("entry for n2");
    assert_eq!(known.size(), 1);
    assert!(known.contains(5));
}

#[test]
fn later_topology_message_overwrites_neighbors() {
    let mut node = BroadcastNode::from_init(init_for("n1", &["n1", "n2", "n3"]));
    node.step(Event::Message(msg(
        "c0",
        "n1",
        Some(1),
        BroadcastPayload::Topology { topology: topology(&[("n1", &["n2"])]) },
    )));
    node.step(Event::Message(msg(
        "c0",
        "n1",
        Some(2),
        BroadcastPayload::Topology { topology: topology(&[("n1", &["n3"])]) },
    )));
    assert_eq!(node.neighbors, vec!["n3".to_string()]);
}

#[test]
fn no_topology_means_no_neighbors_and_silent_rounds() {
    let mut node = BroadcastNode::from_init(init_for("n1", &["n1", "n2"]));
    assert!(node.neighbors.is_empty());
    node.step(Event::Message(msg("c0", "n1", Some(1), BroadcastPayload::Broadcast { message: 3 })));
    let out = node.step(Event::Injected(BroadcastInjected::Gossip));
    assert!(out.is_empty());
}

#[test]
fn topology_without_own_entry_leaves_neighbors_empty() {
    let mut node = BroadcastNode::from_init(init_for("n1", &["n1", "n2"]));
    node.step(Event::Message(msg(
        "c0",
        "n1",
        Some(1),
        BroadcastPayload::Topology { topology: topology(&[("n2", &["n1"])]) },
    )));
    assert!(node.neighbors.is_empty());
    let out = node.step(Event::Injected(BroadcastInjected::Gossip));
    assert!(out.is_empty());
}

#[test]
fn gossip_round_announces_everything_unknown() {
    let mut node = BroadcastNode::from_init(init_for("n1", &["n1", "n2"]));
    node.step(Event::Message(msg(
        "c0",
        "n1",
        Some(1),
        BroadcastPayload::Topology { topology: topology(&[("n1", &["n2"])]) },
    )));
    for v in [10, 11, 12] {
        node.step(Event::Message(msg(
            "c0",
            "n1",
            Some(2),
            BroadcastPayload::Broadcast { message: v },
        )));
    }
    let out = node.step(Event::Injected(BroadcastInjected::Gossip));
    assert_eq!(out.len(), 1);
    assert_eq!(out[0].src, "n1");
    assert_eq!(out[0].dst, "n2");
    assert_eq!(out[0].body.id, None);
    assert_eq!(out[0].body.in_reply_to, None);
    match &out[0].body.payload {
        BroadcastPayload::Gossip { seen } => {
            assert_eq!(seen.size(), 3);
            for v in [10, 11, 12] {
                assert!(seen.contains(v));
            }
        }
        other => panic!("expected Gossip, got {:?}", std::mem::discriminant(other)),
    }
}

#[test]
fn redundant_retransmission_is_bounded() {
    let mut node = BroadcastNode::from_init(init_for("n1", &["n1", "n2"]));
    node.step(Event::Message(msg(
        "c0",
        "n1",
        Some(1),
        BroadcastPayload::Topology { topology: topology(&[("n1", &["n2"])]) },
    )));
    let all: Vec<usize> = (0..20).collect();
    // n2 reports everything as seen: n1 both delivers the ids and records
    // that n2 knows them.
    node.step(Event::Message(msg(
        "n2",
        "n1",
        None,
        BroadcastPayload::Gossip { seen: id_set(&all) },
    )));
    for _ in 0..50 {
        let out = node.step(Event::Injected(BroadcastInjected::Gossip));
        assert_eq!(out.len(), 1);
        match &out[0].body.payload {
            BroadcastPayload::Gossip { seen } => {
                // everything n1 holds is known to n2, so the whole payload is
                // redundancy, bounded by ceil(20 * 0.1) = 2
                assert!(seen.size() <= 2);
            }
            _ => panic!("expected Gossip"),
        }
    }
}

#[test]
fn redundancy_sample_draws_a_real_element() {
    let mut node = BroadcastNode::from_init(init_for("n1", &["n1", "n2"]));
    node.step(Event::Message(msg(
        "c0",
        "n1",
        Some(1),
        BroadcastPayload::Topology { topology: topology(&[("n1", &["n2"])]) },
    )));
    let all: Vec<usize> = (100..110).collect();
    node.step(Event::Message(msg(
        "n2",
        "n1",
        None,
        BroadcastPayload::Gossip { seen: id_set(&all) },
    )));
    // knowledge has 10 ids, so the cap is exactly 1 and the sample loop runs
    // exactly once: the payload must hold exactly one id, one of the ten.
    let out = node.step(Event::Injected(BroadcastInjected::Gossip));
    match &out[0].body.payload {
        BroadcastPayload::Gossip { seen } => {
            assert_eq!(seen.size(), 1);
            assert!((100..110).contains(&seen.get(0)));
        }
        _ => panic!("expected Gossip"),
    }
}

#[test]
fn redundancy_cap_rounds_half_up() {
    assert_eq!(rasengan::redundancy_cap_exec(0), 0);
    assert_eq!(rasengan::redundancy_cap_exec(4), 0);
    assert_eq!(rasengan::redundancy_cap_exec(5), 1);
    assert_eq!(rasengan::redundancy_cap_exec(10), 1);
    assert_eq!(rasengan::redundancy_cap_exec(14), 1);
    assert_eq!(rasengan::redundancy_cap_exec(15), 2);
    assert_eq!(rasengan::redundancy_cap_exec(20), 2);
    assert_eq!(rasengan::redundancy_cap_exec(99), 10);
}

#[test]
fn dissemination_converges_on_a_line_topology() {
    let names = ["n1", "n2", "n3"];
    let mut nodes: Vec<BroadcastNode> = names
        .iter()
        .map(|n| BroadcastNode::from_init(init_for(n, &names)))
        .collect();
    let topo: &[(&str, &[&str])] = &[("n1", &["n2"]), ("n2", &["n1", "n3"]), ("n3", &["n2"])];
    for (i, n) in names.iter().enumerate() {
        nodes[i].step(Event::Message(msg(
            "c0",
            n,
            Some(1),
            BroadcastPayload::Topology { topology: topology(topo) },
        )));
    }
    nodes[0].step(Event::Message(msg("c0", "n1", Some(2), BroadcastPayload::Broadcast { message: 42 })));
    nodes[2].step(Event::Message(msg("c0", "n3", Some(2), BroadcastPayload::Broadcast { message: 43 })));
    // run dissemination rounds, delivering every gossip message produced
    for _ in 0..4 {
        for i in 0..nodes.len() {
            let out = nodes[i].step(Event::Injected(BroadcastInjected::Gossip));
            for m in out {
                let dst = names.iter().position(|n| *n == m.dst).expect("known node");
                nodes[dst].step(Event::Message(m));
            }
        }
    }
    for node in &nodes {
        assert_eq!(node.messages.size(), 2);
        assert!(node.messages.contains(42));
        assert!(node.messages.contains(43));
    }
}
