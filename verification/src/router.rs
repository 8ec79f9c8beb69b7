//! Decides what a router does with the messages that it selects.
//!
//! A router waits on a set of receivers. One of them wakes it up for messages to the router itself:
//! new routes, and the order to shut down. Messages of all others go to the handlers of their
//! routes.

use vstd::prelude::*;
use std::collections::HashMap;
use crate::ipc_message::{IpcSelectionResult, OpaqueIpcMessage};

verus! {

broadcast use vstd::std_specs::hash::group_hash_axioms;

/// The routes of a router. `H` handles the messages of a route.
pub struct Router<H> {
    /// The index of the receiver that wakes the router up.
    pub msg_wakeup_id: u64,
    pub handlers: HashMap<u64, H>,
}

/// What a router has to do for a result of a select.
pub enum RouterStep<H, A> {
    /// There is a message to the router itself.
    WakeUp,
    /// The handler has to handle the message. It is to be put back afterwards.
    Handle(u64, H, OpaqueIpcMessage<A>),
    /// The route has ended.
    Closed(u64),
    /// There is no such route.
    NoHandler(u64),
}

/// A message to a router. `C` is the new receiver, `K` acknowledges the shutdown.
pub enum RouterMsg<C, H, K> {
    AddRoute(C, H),
    Shutdown(K),
}

impl<H> View for Router<H> {
    type V = Map<u64, H>;

    open spec fn view(&self) -> Map<u64, H> {
        self.handlers@
    }
}

/// What is to be done for `result`, and which routes are left meanwhile.
pub open spec fn routed<H, A>(
    wakeup: u64,
    routes: Map<u64, H>,
    result: IpcSelectionResult<A>,
) -> (RouterStep<H, A>, Map<u64, H>) {
    match result {
        IpcSelectionResult::MessageReceived(id, msg) => if id == wakeup {
            (RouterStep::WakeUp, routes)
        } else if routes.contains_key(id) {
            (RouterStep::Handle(id, routes[id], msg), routes.remove(id))
        } else {
            (RouterStep::NoHandler(id), routes)
        },
        IpcSelectionResult::ChannelClosed(id) => if routes.contains_key(id) {
            (RouterStep::Closed(id), routes.remove(id))
        } else {
            (RouterStep::NoHandler(id), routes)
        },
    }
}

/// The index whose route is handed out or has ended.
pub open spec fn step_id<H, A>(step: RouterStep<H, A>) -> Option<u64> {
    match step {
        RouterStep::Handle(id, _, _) => Some(id),
        RouterStep::Closed(id) => Some(id),
        _ => None,
    }
}

impl<H> Router<H> {
    /// A router without routes, woken up through the receiver at `msg_wakeup_id`.
    pub fn new(msg_wakeup_id: u64) -> (router: Router<H>)
        ensures
            router.msg_wakeup_id == msg_wakeup_id,
            router@ == Map::<u64, H>::empty(),
    {
        Router { msg_wakeup_id, handlers: HashMap::new() }
    }

    /// Decides what to do for one result of a select.
    pub fn route<A>(&mut self, result: IpcSelectionResult<A>) -> (step: RouterStep<H, A>)
        ensures
            final(self).msg_wakeup_id == old(self).msg_wakeup_id,
            (step, final(self)@) == routed(old(self).msg_wakeup_id, old(self)@, result),
            match result {
                IpcSelectionResult::MessageReceived(id, msg) => {
                    &&& step is WakeUp <==> id == old(self).msg_wakeup_id
                    &&& id != old(self).msg_wakeup_id && old(self)@.contains_key(id) ==> step
                        == RouterStep::Handle(id, old(self)@[id], msg)
                    &&& id != old(self).msg_wakeup_id && !old(self)@.contains_key(id) ==> step
                        == RouterStep::<H, A>::NoHandler(id)
                },
                IpcSelectionResult::ChannelClosed(id) => if old(self)@.contains_key(id) {
                    step == RouterStep::<H, A>::Closed(id)
                } else {
                    step == RouterStep::<H, A>::NoHandler(id)
                },
            },
            forall|other: u64|
                step_id(step) != Some(other) ==> {
                    &&& #[trigger] final(self)@.contains_key(other) <==> old(self)@.contains_key(
                        other,
                    )
                    &&& old(self)@.contains_key(other) ==> final(self)@[other] == old(self)@[other]
                },
    {
        match result {
            IpcSelectionResult::MessageReceived(id, msg) => {
                if id == self.msg_wakeup_id {
                    return RouterStep::WakeUp;
                }
                match self.handlers.remove(&id) {
                    Some(handler) => RouterStep::Handle(id, handler, msg),
                    None => {
                        assert(self@ =~= old(self)@);
                        RouterStep::NoHandler(id)
                    },
                }
            },
            IpcSelectionResult::ChannelClosed(id) => {
                match self.handlers.remove(&id) {
                    Some(_) => RouterStep::Closed(id),
                    None => {
                        assert(self@ =~= old(self)@);
                        RouterStep::NoHandler(id)
                    },
                }
            },
        }
    }

    /// Adds a route for the receiver at `id`, or puts its handler back. What handled it before is
    /// dropped.
    pub fn add_handler(&mut self, id: u64, handler: H)
        ensures
            final(self).msg_wakeup_id == old(self).msg_wakeup_id,
            final(self)@ == old(self)@.insert(id, handler),
    {
        let _ = self.handlers.insert(id, handler);
    }

    /// How many routes there are.
    pub fn len(&self) -> (n: usize)
        ensures
            n == self@.len(),
    {
        self.handlers.len()
    }
}

/// The sending side of a router.
pub struct RouterProxyComm {
    pub shutdown: bool,
}

impl RouterProxyComm {
    pub fn new() -> (comm: RouterProxyComm)
        ensures
            !comm.shutdown,
    {
        RouterProxyComm { shutdown: false }
    }

    /// Whether the router has to be told to shut down: the first time only.
    pub fn shutdown(&mut self) -> (begin: bool)
        ensures
            final(self).shutdown,
            begin == !old(self).shutdown,
    {
        if self.shutdown {
            return false;
        }
        self.shutdown = true;
        true
    }
}

} // verus!
