use crate::envelope::Body;
use crate::envelope::Init;
use crate::envelope::Message;
use crate::envelope::MessageID;
use crate::envelope::NodeID;
use crate::idset::IdSet;
use crate::knowledge::Knowledge;
use crate::rng::fresh_rng;
use crate::rng::random_below;
use crate::runtime::Event;
use crate::runtime::Node;
use vstd::arithmetic::div_mod::lemma_div_is_ordered;
use vstd::arithmetic::div_mod::lemma_fundamental_div_mod;
use vstd::arithmetic::div_mod::lemma_hoist_over_denominator;
use vstd::prelude::*;

verus! {

broadcast use vstd::seq_lib::seq_to_set_is_finite;

/// Numerator and denominator of the redundancy fraction: per dissemination
/// round, at most round(|knowledge| * NUMER / DENOM) ids already believed
/// known to a neighbor are retransmitted to it.
pub const REDUNDANCY_NUMER: usize = 1;

/// See `REDUNDANCY_NUMER`; the default fraction is one tenth.
pub const REDUNDANCY_DENOM: usize = 10;

/// The redundancy cap for a neighbor believed to know `n` ids:
/// `n * NUMER / DENOM`, rounded half up.
pub open spec fn redundancy_cap(n: nat) -> nat {
    (n * (REDUNDANCY_NUMER as nat) + (REDUNDANCY_DENOM as nat) / 2) / (REDUNDANCY_DENOM as nat)
}

/// The redundancy cap, computed without overflow.
pub fn redundancy_cap_exec(n: usize) -> (r: usize)
    ensures
        r == redundancy_cap(n as nat),
{
    let q = n / REDUNDANCY_DENOM;
    let rem = n % REDUNDANCY_DENOM;
    let extra = (rem * REDUNDANCY_NUMER + REDUNDANCY_DENOM / 2) / REDUNDANCY_DENOM;
    proof {
        let nn = n as int;
        let d = REDUNDANCY_DENOM as int;
        let m = REDUNDANCY_NUMER as int;
        lemma_fundamental_div_mod(nn, d);
        lemma_hoist_over_denominator(
            (nn % d) * m + d / 2,
            (nn / d) * m,
            REDUNDANCY_DENOM as nat,
        );
        assert(nn * m + d / 2 == ((nn % d) * m + d / 2) + ((nn / d) * m) * d) by (nonlinear_arith)
            requires nn == d * (nn / d) + nn % d;
    }
    q * REDUNDANCY_NUMER + extra
}

/// The redundancy cap never exceeds the ceiling of `n * NUMER / DENOM`: with
/// the default fraction, at most one tenth of the neighbor's knowledge,
/// rounded up, is retransmitted per round.
pub proof fn lemma_redundancy_cap_within_ceiling(n: nat)
    ensures
        redundancy_cap(n) <= (n * (REDUNDANCY_NUMER as int) + (REDUNDANCY_DENOM as int) - 1) / (
        REDUNDANCY_DENOM as int),
{
    lemma_div_is_ordered(
        (n * (REDUNDANCY_NUMER as nat) + (REDUNDANCY_DENOM as nat) / 2) as int,
        (n * (REDUNDANCY_NUMER as nat) + (REDUNDANCY_DENOM as nat) - 1) as int,
        REDUNDANCY_DENOM as int,
    );
}

/// A statically assigned topology: a list of (node id, neighbor ids) pairs.
pub struct TopologyMap {
    pub entries: Vec<(NodeID, Vec<NodeID>)>,
}

/// The first neighbor list given for a key, if any.
pub open spec fn topo_lookup(s: Seq<(NodeID, Vec<NodeID>)>, k: Seq<char>) -> Option<Vec<NodeID>>
    decreases s.len(),
{
    if s.len() == 0 {
        None
    } else if s[0].0@ == k {
        Some(s[0].1)
    } else {
        topo_lookup(s.drop_first(), k)
    }
}

proof fn lemma_topo_lookup_at(s: Seq<(NodeID, Vec<NodeID>)>, k: Seq<char>, i: int)
    requires
        0 <= i < s.len(),
        s[i].0@ == k,
        forall|t: int| 0 <= t < i ==> (#[trigger] s[t]).0@ != k,
    ensures
        topo_lookup(s, k) == Some(s[i].1),
    decreases i,
{
    if i > 0 {
        lemma_topo_lookup_at(s.drop_first(), k, i - 1);
    }
}

proof fn lemma_topo_lookup_none(s: Seq<(NodeID, Vec<NodeID>)>, k: Seq<char>)
    requires
        forall|t: int| 0 <= t < s.len() ==> (#[trigger] s[t]).0@ != k,
    ensures
        topo_lookup(s, k) is None,
    decreases s.len(),
{
    if s.len() > 0 {
        lemma_topo_lookup_none(s.drop_first(), k);
    }
}

/// An element-wise copy of a list of node ids.
fn clone_names(v: &Vec<NodeID>) -> (r: Vec<NodeID>)
    ensures
        r@ == v@,
{
    let mut r: Vec<NodeID> = Vec::new();
    let mut j: usize = 0;
    while j < v.len()
        invariant
            j <= v@.len(),
            r@ == v@.take(j as int),
        decreases v@.len() - j,
    {
        r.push(v[j].clone());
        proof {
            assert(r@ =~= v@.take(j as int + 1));
        }
        j = j + 1;
    }
    proof {
        assert(r@ =~= v@);
    }
    r
}

impl TopologyMap {
    /// The neighbor list the topology assigns to `key`: its first value for
    /// the key, or the empty list when the topology does not name it.
    pub fn neighbors_for(&self, key: &NodeID) -> (r: Vec<NodeID>)
        ensures
            r@ == assigned_neighbors(self.entries@, key@),
    {
        let mut j: usize = 0;
        while j < self.entries.len()
            invariant
                j <= self.entries@.len(),
                forall|t: int| 0 <= t < j ==> (#[trigger] self.entries@[t]).0@ != key@,
            decreases self.entries@.len() - j,
        {
            let e = &self.entries[j];
            if e.0 == *key {
                proof {
                    lemma_topo_lookup_at(self.entries@, key@, j as int);
                }
                return clone_names(&e.1);
            }
            j = j + 1;
        }
        proof {
            lemma_topo_lookup_none(self.entries@, key@);
        }
        Vec::new()
    }
}

/// What a topology message leaves as the neighbor list: the entry for the
/// key, or empty when the key is absent.
pub open spec fn assigned_neighbors(s: Seq<(NodeID, Vec<NodeID>)>, k: Seq<char>) -> Seq<NodeID> {
    match topo_lookup(s, k) {
        Some(v) => v@,
        None => Seq::<NodeID>::empty(),
    }
}

/// Payload of the broadcast protocol, tagged on the wire by a "type" field.
pub enum BroadcastPayload {
    /// Assigns the network topology; the node keeps the neighbor list given
    /// under its own id (a later topology message overwrites the list).
    Topology { topology: TopologyMap },
    TopologyOk,
    /// Asks the node to deliver one message id.
    Broadcast { message: MessageID },
    BroadcastOk,
    /// Asks for a snapshot of everything delivered so far.
    Read,
    ReadOk { messages: IdSet },
    /// Fire-and-forget anti-entropy push: ids the sender has seen.
    Gossip { seen: IdSet },
}

/// Internally injected events of the broadcast node: the periodic timer tick
/// that triggers a dissemination round.
pub enum BroadcastInjected {
    Gossip,
}

/// One node of the gossip broadcast protocol.
pub struct BroadcastNode {
    /// This node's own id.
    pub node: NodeID,
    /// Reply-id counter; strictly increasing across replies.
    pub id: MessageID,
    /// The grow-only set of delivered message ids.
    pub messages: IdSet,
    /// What each neighbor is believed to know already.
    pub known: Knowledge,
    /// The assigned neighbor list; empty until a topology message names this
    /// node.
    pub neighbors: Vec<NodeID>,
}

impl BroadcastNode {
    /// Internal well-formedness: the delivered set and every knowledge set
    /// are duplicate-free.
    pub open spec fn wf(&self) -> bool {
        &&& self.messages.inv()
        &&& self.known.inv()
    }

    /// Builds the node from the initialization data: nothing delivered,
    /// nothing believed known to anyone, no neighbors yet, and the reply-id
    /// counter starting past the id that the handshake reply used.
    pub fn from_init(init: Init) -> (r: BroadcastNode)
        ensures
            r.wf(),
            r.node == init.node_id,
            r.id == 1usize,
            r.messages@ == Set::<MessageID>::empty(),
            forall|k: Seq<char>| #[trigger] r.known.set_of(k) == Set::<MessageID>::empty(),
            r.neighbors@.len() == 0,
    {
        BroadcastNode {
            node: init.node_id,
            id: 1,
            messages: IdSet::new(),
            known: Knowledge::new(),
            neighbors: Vec::new(),
        }
    }
}

/// The set a possibly absent knowledge entry stands for.
pub open spec fn known_view(known: Option<&IdSet>) -> Set<MessageID> {
    match known {
        Some(k) => k@,
        None => Set::<MessageID>::empty(),
    }
}

/// What one gossip payload to a neighbor may hold: every delivered id the
/// neighbor is not believed to know, only delivered ids, and at most
/// `redundancy_cap` of the ids it is believed to know.
pub open spec fn gossip_seen_ok(
    delivered: Set<MessageID>,
    kn: Set<MessageID>,
    seen: Set<MessageID>,
) -> bool {
    &&& delivered.difference(kn).subset_of(seen)
    &&& seen.subset_of(delivered)
    &&& seen.intersect(kn).finite()
    &&& seen.intersect(kn).len() <= redundancy_cap(kn.len())
}

/// Builds the payload of one gossip message: all of `messages` not in the
/// neighbor's recorded set, plus a random sample of the rest, bounded by the
/// redundancy cap. The sample is drawn with replacement, so its size only
/// ever falls below the cap.
fn build_gossip(messages: &IdSet, known: Option<&IdSet>, rng: &mut rand::rngs::ThreadRng) -> (seen:
    IdSet)
    requires
        messages.inv(),
        known matches Some(k) ==> k.inv(),
    ensures
        seen.inv(),
        gossip_seen_ok(messages@, known_view(known), seen@),
{
    let ghost kn = known_view(known);
    let mut seen = IdSet::new();
    let mut overlap: Vec<MessageID> = Vec::new();
    let total = messages.size();
    let mut j: usize = 0;
    while j < total
        invariant
            messages.inv(),
            known matches Some(k) ==> k.inv(),
            kn == known_view(known),
            total == messages.ids@.len(),
            j <= total,
            seen.inv(),
            seen@ == messages.ids@.take(j as int).to_set().difference(kn),
            forall|t: int| 0 <= t < overlap@.len() ==> kn.contains(#[trigger] overlap@[t])
                && messages@.contains(overlap@[t]),
        decreases total - j,
    {
        let m = messages.get(j);
        let is_known = match known {
            Some(k) => k.contains(m),
            None => false,
        };
        if is_known {
            overlap.push(m);
        } else {
            seen.insert(m);
        }
        proof {
            crate::idset::lemma_take_to_set_extend(messages.ids@, j as int);
            assert(seen@ =~= messages.ids@.take(j as int + 1).to_set().difference(kn));
        }
        j = j + 1;
    }
    proof {
        assert(messages.ids@.take(total as int) =~= messages.ids@);
        assert(seen@ =~= messages@.difference(kn));
    }
    let known_len = match known {
        Some(k) => k.size(),
        None => 0,
    };
    let cap = redundancy_cap_exec(known_len);
    let sample = if cap < overlap.len() {
        cap
    } else {
        overlap.len()
    };
    let ghost unknown = messages@.difference(kn);
    let ghost mut extra: Set<MessageID> = Set::<MessageID>::empty();
    proof {
        assert(seen@ =~= unknown.union(extra));
    }
    let mut t: usize = 0;
    while t < sample
        invariant
            t <= sample,
            sample <= overlap@.len(),
            cap == redundancy_cap(kn.len()),
            sample <= cap,
            forall|u: int| 0 <= u < overlap@.len() ==> kn.contains(#[trigger] overlap@[u])
                && messages@.contains(overlap@[u]),
            seen.inv(),
            seen@ == unknown.union(extra),
            extra.subset_of(messages@.intersect(kn)),
            extra.finite(),
            extra.len() <= t,
        decreases sample - t,
    {
        let idx = random_below(rng, overlap.len());
        let m = overlap[idx];
        seen.insert(m);
        proof {
            extra = extra.insert(m);
            assert(seen@ =~= unknown.union(extra));
        }
        t = t + 1;
    }
    proof {
        assert(seen@.intersect(kn).subset_of(extra));
        vstd::set_lib::lemma_len_subset(seen@.intersect(kn), extra);
        assert(seen@.subset_of(messages@));
        assert(unknown.subset_of(seen@));
    }
    seen
}

/// What one message of a dissemination round looks like: a fire-and-forget
/// gossip from this node to the neighbor, whose payload satisfies
/// `gossip_seen_ok` against the neighbor's recorded knowledge.
pub open spec fn gossip_msg_ok(
    n: BroadcastNode,
    msg: Message<BroadcastPayload>,
    dst: NodeID,
) -> bool {
    &&& msg.src == n.node
    &&& msg.dst == dst
    &&& msg.body.id is None
    &&& msg.body.in_reply_to is None
    &&& msg.body.payload matches BroadcastPayload::Gossip { seen } && seen.inv()
        && gossip_seen_ok(n.messages@, n.known.set_of(dst@), seen@)
}

/// What a whole dissemination round produces: one gossip message per
/// assigned neighbor, in the neighbor list's order.
pub open spec fn gossip_round_spec(n: BroadcastNode, out: Seq<Message<BroadcastPayload>>) -> bool {
    &&& out.len() == n.neighbors@.len()
    &&& forall|i: int|
        0 <= i < out.len() ==> gossip_msg_ok(n, #[trigger] out[i], n.neighbors@[i])
}

impl BroadcastNode {
    /// One dissemination round: to each neighbor, every delivered id the
    /// neighbor is not believed to know, plus a bounded random sample of ids
    /// it is believed to know, as resilience against message loss. The node
    /// itself does not change.
    pub fn gossip_round(&self) -> (out: Vec<Message<BroadcastPayload>>)
        requires
            self.wf(),
        ensures
            gossip_round_spec(*self, out@),
    {
        let mut out: Vec<Message<BroadcastPayload>> = Vec::new();
        let mut rng = fresh_rng();
        let mut i: usize = 0;
        while i < self.neighbors.len()
            invariant
                self.wf(),
                i <= self.neighbors@.len(),
                out@.len() == i,
                forall|t: int|
                    0 <= t < i ==> gossip_msg_ok(*self, #[trigger] out@[t], self.neighbors@[t]),
            decreases self.neighbors@.len() - i,
        {
            let neighbor = &self.neighbors[i];
            let known = self.known.get(neighbor);
            let seen = build_gossip(&self.messages, known, &mut rng);
            out.push(
                Message {
                    src: self.node.clone(),
                    dst: neighbor.clone(),
                    body: Body {
                        id: None,
                        in_reply_to: None,
                        payload: BroadcastPayload::Gossip { seen },
                    },
                },
            );
            i = i + 1;
        }
        out
    }
}

/// The shell every numbered reply shares: source and destination swapped
/// from the original, own id `id`, correlation id the original's own id.
pub open spec fn reply_shell_ok(
    r: Message<BroadcastPayload>,
    m: Message<BroadcastPayload>,
    id: MessageID,
) -> bool {
    &&& r.src == m.dst
    &&& r.dst == m.src
    &&& r.body.id == Some(id)
    &&& r.body.in_reply_to == m.body.id
}

/// The full effect of one step of the broadcast node, per event.
pub open spec fn step_spec(
    pre: BroadcastNode,
    post: BroadcastNode,
    input: Event<BroadcastPayload, BroadcastInjected>,
    out: Seq<Message<BroadcastPayload>>,
) -> bool {
    match input {
        Event::Shutdown => post == pre && out.len() == 0,
        Event::Injected(BroadcastInjected::Gossip) => post == pre && gossip_round_spec(pre, out),
        Event::Message(m) => {
            &&& post.node == pre.node
            &&& post.id as int == pre.id + 1
            &&& match m.body.payload {
                BroadcastPayload::Broadcast { message } => {
                    &&& post.messages@ == pre.messages@.insert(message)
                    &&& post.known == pre.known
                    &&& post.neighbors == pre.neighbors
                    &&& out.len() == 1
                    &&& reply_shell_ok(out[0], m, post.id)
                    &&& out[0].body.payload is BroadcastOk
                },
                BroadcastPayload::Read => {
                    &&& post.messages == pre.messages
                    &&& post.known == pre.known
                    &&& post.neighbors == pre.neighbors
                    &&& out.len() == 1
                    &&& reply_shell_ok(out[0], m, post.id)
                    &&& out[0].body.payload matches BroadcastPayload::ReadOk { messages }
                        && messages@ == pre.messages@
                },
                BroadcastPayload::Topology { topology } => {
                    &&& post.messages == pre.messages
                    &&& post.known == pre.known
                    &&& post.neighbors@ == assigned_neighbors(topology.entries@, pre.node@)
                    &&& out.len() == 1
                    &&& reply_shell_ok(out[0], m, post.id)
                    &&& out[0].body.payload is TopologyOk
                },
                BroadcastPayload::Gossip { seen } => {
                    &&& post.messages@ == pre.messages@.union(seen@)
                    &&& post.known.set_of(m.src@) == pre.known.set_of(m.src@).union(seen@)
                    &&& forall|k: Seq<char>| k != m.src@ ==> #[trigger] post.known.set_of(k)
                        == pre.known.set_of(k)
                    &&& post.neighbors == pre.neighbors
                    &&& out.len() == 0
                },
                _ => {
                    &&& post.messages == pre.messages
                    &&& post.known == pre.known
                    &&& post.neighbors == pre.neighbors
                    &&& out.len() == 0
                },
            }
        },
    }
}

impl BroadcastNode {
    /// Processes one event: a broadcast is delivered and acknowledged, a
    /// read answered with a snapshot, a topology message assigns (and a
    /// later one overwrites) the neighbor list, incoming gossip is delivered
    /// and recorded as known to its sender, acknowledgments are ignored, and
    /// a timer tick runs a dissemination round. The delivered set and every
    /// knowledge set only ever grow.
    pub fn step(&mut self, input: Event<BroadcastPayload, BroadcastInjected>) -> (out: Vec<
        Message<BroadcastPayload>,
    >)
        requires
            old(self).wf(),
            old(self).id < usize::MAX,
        ensures
            final(self).wf(),
            old(self).messages@.subset_of(final(self).messages@),
            forall|k: Seq<char>| #[trigger]
                old(self).known.set_of(k).subset_of(final(self).known.set_of(k)),
            step_spec(*old(self), *final(self), input, out@),
    {
        let mut out: Vec<Message<BroadcastPayload>> = Vec::new();
        match input {
            Event::Shutdown => {},
            Event::Injected(BroadcastInjected::Gossip) => {
                out = self.gossip_round();
            },
            Event::Message(m) => {
                let mut ctr = self.id;
                let reply = m.into_reply(&mut ctr);
                self.id = ctr;
                let Message { src, dst, body } = reply;
                let Body { id: rid, in_reply_to: rirt, payload } = body;
                match payload {
                    BroadcastPayload::Broadcast { message } => {
                        self.messages.insert(message);
                        out.push(
                            Message {
                                src,
                                dst,
                                body: Body {
                                    id: rid,
                                    in_reply_to: rirt,
                                    payload: BroadcastPayload::BroadcastOk,
                                },
                            },
                        );
                    },
                    BroadcastPayload::Read => {
                        let snapshot = self.messages.duplicate();
                        out.push(
                            Message {
                                src,
                                dst,
                                body: Body {
                                    id: rid,
                                    in_reply_to: rirt,
                                    payload: BroadcastPayload::ReadOk { messages: snapshot },
                                },
                            },
                        );
                    },
                    BroadcastPayload::Topology { topology } => {
                        self.neighbors = topology.neighbors_for(&self.node);
                        out.push(
                            Message {
                                src,
                                dst,
                                body: Body {
                                    id: rid,
                                    in_reply_to: rirt,
                                    payload: BroadcastPayload::TopologyOk,
                                },
                            },
                        );
                    },
                    BroadcastPayload::Gossip { seen } => {
                        self.messages.union_with(&seen);
                        self.known.merge(&dst, &seen);
                    },
                    BroadcastPayload::BroadcastOk => {},
                    BroadcastPayload::TopologyOk => {},
                    BroadcastPayload::ReadOk { .. } => {},
                }
            },
        }
        out
    }
}

impl Node<(), BroadcastPayload, BroadcastInjected> for BroadcastNode {
    open spec fn inv(&self) -> bool {
        self.wf()
    }

    open spec fn step_ready(&self) -> bool {
        self.id < usize::MAX
    }

    fn from_init(_state: (), init: Init) -> (r: BroadcastNode) {
        BroadcastNode::from_init(init)
    }

    fn step(&mut self, input: Event<BroadcastPayload, BroadcastInjected>) -> (out: Vec<
        Message<BroadcastPayload>,
    >) {
        BroadcastNode::step(self, input)
    }
}

/// A node that no topology message has named gossips nothing: with no
/// neighbors, a dissemination round produces no messages at all.
pub proof fn lemma_no_neighbors_no_gossip(n: BroadcastNode, out: Seq<Message<BroadcastPayload>>)
    requires
        n.neighbors@.len() == 0,
        gossip_round_spec(n, out),
    ensures
        out.len() == 0,
{
}

/// Knowledge records stay sound across a step: when everything this node
/// records as known to a peer really is delivered at that peer, and any
/// gossip payload arriving from that peer only carries ids the peer has
/// delivered (which `gossip_seen_ok` guarantees of the payloads a node
/// sends), then the record is still sound after the step. Delivered sets
/// only ever grow, so the record stays sound as the peer moves on.
pub proof fn lemma_knowledge_stays_sound(
    pre: BroadcastNode,
    post: BroadcastNode,
    input: Event<BroadcastPayload, BroadcastInjected>,
    out: Seq<Message<BroadcastPayload>>,
    peer: Seq<char>,
    peer_delivered: Set<MessageID>,
)
    requires
        step_spec(pre, post, input, out),
        pre.known.set_of(peer).subset_of(peer_delivered),
        input matches Event::Message(m) ==> (m.body.payload matches BroadcastPayload::Gossip {
            seen,
        } ==> (m.src@ == peer ==> seen@.subset_of(peer_delivered))),
    ensures
        post.known.set_of(peer).subset_of(peer_delivered),
{
    match input {
        Event::Shutdown => {},
        Event::Injected(BroadcastInjected::Gossip) => {},
        Event::Message(m) => {
            match m.body.payload {
                BroadcastPayload::Gossip { seen } => {
                    if m.src@ == peer {
                        assert(post.known.set_of(peer) == pre.known.set_of(peer).union(seen@));
                    } else {
                        assert(post.known.set_of(peer) == pre.known.set_of(peer));
                    }
                },
                _ => {},
            }
        },
    }
}

/// One hop of convergence: when this node's record of what a neighbor knows
/// is sound — the neighbor has indeed delivered everything recorded for it —
/// the gossip a dissemination round sends to that neighbor carries every id
/// the neighbor still lacks, so that merging it leaves the neighbor with
/// every id this node has delivered.
pub proof fn lemma_gossip_catches_up(
    a: BroadcastNode,
    out: Seq<Message<BroadcastPayload>>,
    i: int,
    d: Set<MessageID>,
)
    requires
        gossip_round_spec(a, out),
        0 <= i < out.len(),
        a.known.set_of(a.neighbors@[i]@).subset_of(d),
    ensures
        out[i].body.payload is Gossip,
        a.messages@.subset_of(d.union(out[i].body.payload->Gossip_seen@)),
{
    let kn = a.known.set_of(a.neighbors@[i]@);
    let seen = out[i].body.payload->Gossip_seen;
    assert forall|x: MessageID| a.messages@.contains(x) implies d.union(seen@).contains(x) by {
        if kn.contains(x) {
        } else {
            assert(a.messages@.difference(kn).contains(x));
        }
    };
}

/// Convergence, one delivery at a time: let a dissemination round of node
/// `a` produce a gossip message for its `i`-th neighbor, let `a`'s record of
/// that neighbor's knowledge be sound for a node `b` (everything recorded is
/// delivered at `b`), and let `b` process the message. Then `b` holds every
/// id `a` has delivered. Applied along a path of a connected topology, every
/// delivered id reaches every node.
pub proof fn lemma_delivery_catches_up(
    a: BroadcastNode,
    out: Seq<Message<BroadcastPayload>>,
    i: int,
    b_pre: BroadcastNode,
    b_post: BroadcastNode,
    b_out: Seq<Message<BroadcastPayload>>,
)
    requires
        gossip_round_spec(a, out),
        0 <= i < out.len(),
        a.known.set_of(a.neighbors@[i]@).subset_of(b_pre.messages@),
        step_spec(b_pre, b_post, Event::Message(out[i]), b_out),
    ensures
        a.messages@.subset_of(b_post.messages@),
{
    lemma_gossip_catches_up(a, out, i, b_pre.messages@);
}

} // verus!
