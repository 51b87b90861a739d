use vstd::prelude::*;

verus! {

/// Identifier of a node, stable for the life of the process.
pub type NodeID = String;

/// Identifier of a message, assigned monotonically by the sending node.
pub type MessageID = usize;

/// The body of a wire message: an optional own id (present when the sender
/// wants the reply correlated back), an optional reply-correlation id, and
/// the protocol-specific payload.
pub struct Body<Payload> {
    pub id: Option<MessageID>,
    pub in_reply_to: Option<MessageID>,
    pub payload: Payload,
}

/// A wire message envelope: source node, destination node, and body.
pub struct Message<Payload> {
    pub src: NodeID,
    pub dst: NodeID,
    pub body: Body<Payload>,
}

impl<Payload> Message<Payload> {
    /// Converts a message into a reply to it: source and destination swap,
    /// the reply's correlation id is the original's own id, and the reply
    /// takes the next value of the sender's id counter as its own id.
    pub fn into_reply(self, id: &mut MessageID) -> (r: Self)
        requires
            *old(id) < usize::MAX,
        ensures
            *final(id) == *old(id) + 1,
            r.src == self.dst,
            r.dst == self.src,
            r.body.id == Some((*old(id) + 1) as MessageID),
            r.body.in_reply_to == self.body.id,
            r.body.payload == self.body.payload,
    {
        *id = *id + 1;
        Message {
            src: self.dst,
            dst: self.src,
            body: Body { id: Some(*id), in_reply_to: self.body.id, payload: self.body.payload },
        }
    }
}

/// The data carried by the initialization message: this node's id and the
/// ids of every node in the network.
pub struct Init {
    pub node_id: NodeID,
    pub node_ids: Vec<NodeID>,
}

/// Payload of the initialization handshake.
pub enum InitPayload {
    Init(Init),
    InitOk,
}

/// The initialization handshake: the very first message a node receives must
/// carry the `Init` variant. On it, the node answers with an `InitOk` reply
/// addressed back to the initializer, carrying own id 0 and the init
/// message's own id as its correlation id. Any other first message is a
/// protocol error, reported as `None`.
pub fn handshake(first: Message<InitPayload>) -> (r: Option<(Message<InitPayload>, Init)>)
    ensures
        (r is Some) == (first.body.payload is Init),
        r matches Some((reply, init)) ==> {
            &&& first.body.payload == InitPayload::Init(init)
            &&& reply.src == first.dst
            &&& reply.dst == first.src
            &&& reply.body.id == Some(0usize)
            &&& reply.body.in_reply_to == first.body.id
            &&& reply.body.payload is InitOk
        },
{
    let Message { src, dst, body } = first;
    match body.payload {
        InitPayload::Init(init) => {
            let reply = Message {
                src: dst,
                dst: src,
                body: Body { id: Some(0), in_reply_to: body.id, payload: InitPayload::InitOk },
            };
            Some((reply, init))
        }
        InitPayload::InitOk => None,
    }
}

} // verus!
