use crate::envelope::Init;
use crate::envelope::Message;
use vstd::prelude::*;

verus! {

/// One unit of work for a node's event loop: a decoded message from the
/// wire, an internally injected payload (for instance a timer tick), or
/// shutdown. Events are handed to the step handler one at a time, in
/// arrival order.
pub enum Event<Payload, InjectedPayload> {
    Message(Message<Payload>),
    Injected(InjectedPayload),
    Shutdown,
}

/// A pluggable protocol implementation: constructed once from the
/// initialization data, then stepped once per event. A step returns the
/// messages to write to the output sink; the surrounding event loop performs
/// the reading, the writing and the timing.
pub trait Node<State, Payload, InjectedPayload>: Sized {
    /// The implementation's internal well-formedness, established at
    /// construction and preserved by every step.
    spec fn inv(&self) -> bool;

    /// When a further step is possible (for instance, the reply-id counter
    /// still has room to grow).
    spec fn step_ready(&self) -> bool;

    fn from_init(state: State, init: Init) -> (r: Self)
        ensures
            r.inv(),
    ;

    fn step(&mut self, input: Event<Payload, InjectedPayload>) -> (out: Vec<Message<Payload>>)
        requires
            old(self).inv(),
            old(self).step_ready(),
        ensures
            final(self).inv(),
    ;
}

} // verus!
