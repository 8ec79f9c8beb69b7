//! Record and replay for crossbeam channels.

use vstd::prelude::*;
use std::time::{Duration, Instant};
use crate::desync::{desync_step, handle_desync, lemma_desync_weaken, DetMessage, Step};
use crate::detthread::{DetThreadId, ThreadState, ThreadView};
use crate::error::{
    result_view, DesyncError, DesyncErrorView, RecvErrorDef, RecvErrorRR, RecvTimeoutErrorDef,
    SendError, TryRecvErrorDef,
};
use crate::mode::RRMode;
use crate::recordlog::{ChannelVariant, MetadataView, RecordMetadata};
use crate::rr::{
    lemma_expected_weaken, lemma_recv_weaken, receive, recv_expected, recv_step, wait_for,
    DetChannelId, Poll, Wire,
};
use crate::send::{
    desync_send, lemma_desync_send_weaken, lemma_send_weaken, send_message, send_on_desync,
    send_step, SendStep, SenderKind,
};
use crate::source::{
    conserves, lemma_idle_conserves, lemma_kept_again, lemma_waited, step_message, step_takes,
    waited, Source,
};
use crate::thread_map::{all_empty, contents, keep, queue_of, took_some, BufferedValues, ThreadMap};
use crate::tivo::{created, record_creation};
use crate::wire::{
    crossbeam_after, crossbeam_after_gave, crossbeam_bounded, crossbeam_bounded_gave,
    crossbeam_clone, crossbeam_clone_gave, crossbeam_never, crossbeam_never_gave,
    crossbeam_recv_gave, crossbeam_recv_timeout_gave, crossbeam_send, crossbeam_send_gave,
    crossbeam_try_recv_gave, crossbeam_unbounded, crossbeam_unbounded_gave, fits, is_seconds,
    seconds, take_bare_recv, take_bare_recv_timeout, take_bare_try_recv, take_recv,
    take_recv_timeout, take_try_recv, Came, RealEnd,
};

verus! {

/// The sending end of a crossbeam channel.
#[verifier::reject_recursive_types(T)]
pub struct Sender<T> {
    pub sender: ::crossbeam_channel::Sender<DetMessage<T>>,
    pub metadata: RecordMetadata,
    pub mode: RRMode,
}

/// What a send of a tagged message gives back to the sender, who knows nothing of the tag.
pub open spec fn send_result<T>(raw: Result<(), DetMessage<T>>) -> Result<(), SendError<T>> {
    match raw {
        Ok(_) => Ok(()),
        Err((_, msg)) => Err(SendError(msg)),
    }
}

impl<T> Sender<T> {
    pub fn new(
        real_sender: ::crossbeam_channel::Sender<DetMessage<T>>,
        metadata: RecordMetadata,
        mode: RRMode,
    ) -> (sender: Sender<T>)
        ensures
            sender == (Sender { sender: real_sender, metadata, mode }),
    {
        Sender { sender: real_sender, metadata, mode }
    }

    /// Handing `m` to the channel may give `gave`.
    pub open spec fn sends(self, m: DetMessage<T>, gave: Result<(), SendError<T>>) -> bool {
        exists|raw: Result<(), DetMessage<T>>| #[trigger]
            crossbeam_send_gave(self.sender, m, raw) && gave == send_result(raw)
    }

    /// Hands the message, tagged with the thread that sends it, to the channel.
    pub fn underlying_send(&self, thread_id: DetThreadId, msg: T) -> (gave: Result<
        (),
        SendError<T>,
    >)
        ensures
            self.sends((thread_id, msg), gave),
            gave matches Err(e) ==> e.0 == msg,
    {
        let send = crossbeam_send::<DetMessage<T>>;
        let ghost m = (thread_id, msg);
        let raw = send(&self.sender, (thread_id, msg));
        assert(crossbeam_send_gave(self.sender, m, raw));
        match raw {
            Ok(_) => Ok(()),
            Err(back) => Err(SendError(back.1)),
        }
    }

    /// Sends a message.
    pub fn send(&self, thread: &mut ThreadState, msg: T) -> (r: SendStep<T, SendError<T>>)
        requires
            old(thread)@.initialized,
        ensures
            send_step(
                SenderKind::Crossbeam,
                self.mode,
                self.metadata@,
                |m: DetMessage<T>, gave: Result<(), SendError<T>>| self.sends(m, gave),
                old(thread)@,
                msg,
                r,
                final(thread)@,
            ),
    {
        let f = |thread_id: DetThreadId, m: T| -> (gave: Result<(), SendError<T>>)
            ensures
                self.sends((thread_id, m), gave),
            { self.underlying_send(thread_id, m) };
        let r = send_message(thread, SenderKind::Crossbeam, msg, self.mode, &self.metadata, &f);
        proof {
            lemma_send_weaken(
                SenderKind::Crossbeam,
                self.mode,
                self.metadata@,
                |m: DetMessage<T>, gave: Result<(), SendError<T>>| call_ensures(f, m, gave),
                |m: DetMessage<T>, gave: Result<(), SendError<T>>| self.sends(m, gave),
                old(thread)@,
                msg,
                r,
                thread@,
            );
        }
        r
    }

    /// Another sending end of the same channel. Several senders are not supported on a bounded
    /// channel: its blocking would not be preserved.
    pub fn clone(&self) -> (copy: Sender<T>)
        requires
            self.metadata.channel_variant != ChannelVariant::CbBounded,
        ensures
            copy.metadata@ == self.metadata@,
            copy.mode == self.mode,
            crossbeam_clone_gave(self.sender, copy.sender),
    {
        let f = crossbeam_clone::<DetMessage<T>>;
        Sender { sender: f(&self.sender), metadata: self.metadata.clone(), mode: self.mode }
    }

    /// Completes a `send` whose thread was woken up by a desynchronization.
    pub fn send_after_wakeup(&self, thread: &mut ThreadState, msg: T) -> (r: SendStep<
        T,
        SendError<T>,
    >)
        requires
            old(thread)@.initialized,
        ensures
            desync_send(
                DesyncErrorView::DesynchronizedWakeup,
                |m: DetMessage<T>, gave: Result<(), SendError<T>>| self.sends(m, gave),
                old(thread)@,
                msg,
                r,
                final(thread)@,
            ),
    {
        let f = |thread_id: DetThreadId, m: T| -> (gave: Result<(), SendError<T>>)
            ensures
                self.sends((thread_id, m), gave),
            { self.underlying_send(thread_id, m) };
        let r = send_on_desync(thread, DesyncError::DesynchronizedWakeup, msg, &f);
        proof {
            lemma_desync_send_weaken(
                DesyncErrorView::DesynchronizedWakeup,
                |m: DetMessage<T>, gave: Result<(), SendError<T>>| call_ensures(f, m, gave),
                |m: DetMessage<T>, gave: Result<(), SendError<T>>| self.sends(m, gave),
                old(thread)@,
                msg,
                r,
                thread@,
            );
        }
        r
    }
}

/// Adds the thread's own id to a message that carries none.
pub open spec fn tagged<T, E>(
    det_id: Seq<u32>,
    raw: Result<T, E>,
    got: Result<DetMessage<T>, E>,
) -> bool {
    match raw {
        Ok(msg) => match got {
            Ok((id, m)) => id@ == det_id && m == msg,
            Err(_) => false,
        },
        Err(e) => got == Err::<DetMessage<T>, E>(e),
    }
}

/// Adds the thread's own id to a message that carries none.
pub fn tag<T, E>(det_id: &DetThreadId, raw: Result<T, E>) -> (got: Result<DetMessage<T>, E>)
    ensures
        tagged(det_id@, raw, got),
{
    match raw {
        Ok(msg) => Ok((det_id.clone(), msg)),
        Err(e) => Err(e),
    }
}

/// What an attempt to receive with a timeout gives as a poll.
pub open spec fn as_poll<T>(got: Result<DetMessage<T>, RecvTimeoutErrorDef>) -> Poll<T> {
    match got {
        Ok(m) => Ok(m),
        Err(RecvTimeoutErrorDef::Timeout) => Err(RecvErrorRR::Timeout),
        Err(RecvTimeoutErrorDef::Disconnected) => Err(RecvErrorRR::Disconnected),
    }
}

/// The receiving ends of the kinds of crossbeam channels.
#[verifier::reject_recursive_types(T)]
pub enum ChannelKind<T> {
    After(::crossbeam_channel::Receiver<T>),
    Bounded(::crossbeam_channel::Receiver<DetMessage<T>>),
    Never(::crossbeam_channel::Receiver<DetMessage<T>>),
    Unbounded(::crossbeam_channel::Receiver<DetMessage<T>>),
}

impl<T> ChannelKind<T> {
    /// The channel is always empty: it gives neither a message nor the news that it is disconnected.
    pub open spec fn is_silent(self) -> bool {
        &&& forall|det_id: Seq<u32>, got: Result<DetMessage<T>, TryRecvErrorDef>| #[trigger]
            self.try_recv_gives(det_id, got) ==> got == Err::<DetMessage<T>, TryRecvErrorDef>(
                TryRecvErrorDef::Empty,
            )
        &&& forall|
            det_id: Seq<u32>,
            duration: Duration,
            got: Result<DetMessage<T>, RecvTimeoutErrorDef>,
        | #[trigger]
            self.recv_timeout_gives(det_id, duration, got) ==> got == Err::<
                DetMessage<T>,
                RecvTimeoutErrorDef,
            >(RecvTimeoutErrorDef::Timeout)
    }

    /// A receive of the thread `det_id` that does not wait may give `got`.
    pub open spec fn try_recv_gives(
        self,
        det_id: Seq<u32>,
        got: Result<DetMessage<T>, TryRecvErrorDef>,
    ) -> bool {
        match self {
            ChannelKind::After(receiver) => exists|raw: Result<T, TryRecvErrorDef>| #[trigger]
                crossbeam_try_recv_gave(receiver, raw) && tagged(det_id, raw, got),
            ChannelKind::Bounded(receiver) => crossbeam_try_recv_gave(receiver, got),
            ChannelKind::Never(receiver) => crossbeam_try_recv_gave(receiver, got),
            ChannelKind::Unbounded(receiver) => crossbeam_try_recv_gave(receiver, got),
        }
    }

    /// A blocking receive of the thread `det_id` may give `got`.
    pub open spec fn recv_gives(
        self,
        det_id: Seq<u32>,
        got: Result<DetMessage<T>, RecvErrorDef>,
    ) -> bool {
        match self {
            ChannelKind::After(receiver) => exists|raw: Result<T, RecvErrorDef>| #[trigger]
                crossbeam_recv_gave(receiver, raw) && tagged(det_id, raw, got),
            ChannelKind::Bounded(receiver) => crossbeam_recv_gave(receiver, got),
            ChannelKind::Never(receiver) => crossbeam_recv_gave(receiver, got),
            ChannelKind::Unbounded(receiver) => crossbeam_recv_gave(receiver, got),
        }
    }

    /// A receive of the thread `det_id` that waits no longer than `duration` may give `got`.
    pub open spec fn recv_timeout_gives(
        self,
        det_id: Seq<u32>,
        duration: Duration,
        got: Result<DetMessage<T>, RecvTimeoutErrorDef>,
    ) -> bool {
        match self {
            ChannelKind::After(receiver) => exists|raw: Result<T, RecvTimeoutErrorDef>| #[trigger]
                crossbeam_recv_timeout_gave(receiver, duration, raw) && tagged(det_id, raw, got),
            ChannelKind::Bounded(receiver) => crossbeam_recv_timeout_gave(receiver, duration, got),
            ChannelKind::Never(receiver) => crossbeam_recv_timeout_gave(receiver, duration, got),
            ChannelKind::Unbounded(receiver) => crossbeam_recv_timeout_gave(
                receiver,
                duration,
                got,
            ),
        }
    }

    /// An attempt of the replaying thread `det_id` may give `poll`. Attempts time out after one
    /// second.
    pub open spec fn poll_gives(self, det_id: Seq<u32>, poll: Poll<T>) -> bool {
        exists|duration: Duration, got: Result<DetMessage<T>, RecvTimeoutErrorDef>|
            {
                &&& is_seconds(1, duration)
                &&& #[trigger] self.recv_timeout_gives(det_id, duration, got)
                &&& poll == as_poll(got)
            }
    }

    /// The end itself, as its messages are tagged.
    pub open spec fn end(self) -> RealEnd<DetThreadId, T> {
        match self {
            ChannelKind::After(receiver) => RealEnd::Bare(receiver),
            ChannelKind::Bounded(receiver) => RealEnd::Tagged(receiver),
            ChannelKind::Never(receiver) => RealEnd::Tagged(receiver),
            ChannelKind::Unbounded(receiver) => RealEnd::Tagged(receiver),
        }
    }

    /// Starts the record of what is received.
    pub(crate) fn start(self) -> (r: (ChannelKind<T>, Came<DetThreadId, T>))
        ensures
            r.0 == self,
            r.1.end() == self.end(),
            r.1.seen() == Seq::<Option<DetMessage<T>>>::empty(),
    {
        match self {
            ChannelKind::After(receiver) => {
                let (receiver, came) = Came::of_bare(receiver);
                (ChannelKind::After(receiver), came)
            },
            ChannelKind::Bounded(receiver) => {
                let (receiver, came) = Came::of_tagged(receiver);
                (ChannelKind::Bounded(receiver), came)
            },
            ChannelKind::Never(receiver) => {
                let (receiver, came) = Came::of_tagged(receiver);
                (ChannelKind::Never(receiver), came)
            },
            ChannelKind::Unbounded(receiver) => {
                let (receiver, came) = Came::of_tagged(receiver);
                (ChannelKind::Unbounded(receiver), came)
            },
        }
    }

    pub fn try_recv(
        &self,
        det_id: &DetThreadId,
        came: &mut Came<DetThreadId, T>,
    ) -> (got: Result<DetMessage<T>, TryRecvErrorDef>)
        requires
            old(came).end() == (*self).end(),
        ensures
            (*self).try_recv_gives(det_id@, got),
            final(came).follows(*old(came), got),
    {
        match self {
            ChannelKind::After(receiver) => take_bare_try_recv(receiver, det_id, came),
            ChannelKind::Bounded(receiver)
            | ChannelKind::Unbounded(receiver)
            | ChannelKind::Never(receiver) => take_try_recv(receiver, came),
        }
    }

    pub fn recv(
        &self,
        det_id: &DetThreadId,
        came: &mut Came<DetThreadId, T>,
    ) -> (got: Result<DetMessage<T>, RecvErrorDef>)
        requires
            old(came).end() == (*self).end(),
        ensures
            (*self).recv_gives(det_id@, got),
            final(came).follows(*old(came), got),
    {
        match self {
            ChannelKind::After(receiver) => take_bare_recv(receiver, det_id, came),
            ChannelKind::Bounded(receiver)
            | ChannelKind::Unbounded(receiver)
            | ChannelKind::Never(receiver) => take_recv(receiver, came),
        }
    }

    pub fn recv_timeout(
        &self,
        det_id: &DetThreadId,
        duration: Duration,
        came: &mut Came<DetThreadId, T>,
    ) -> (got: Result<DetMessage<T>, RecvTimeoutErrorDef>)
        requires
            old(came).end() == (*self).end(),
        ensures
            (*self).recv_timeout_gives(det_id@, duration, got),
            final(came).follows(*old(came), got),
    {
        match self {
            ChannelKind::After(receiver) => take_bare_recv_timeout(receiver, det_id, duration, came),
            ChannelKind::Bounded(receiver)
            | ChannelKind::Unbounded(receiver)
            | ChannelKind::Never(receiver) => take_recv_timeout(receiver, duration, came),
        }
    }

    /// One attempt of a replay to receive.
    fn poll(&self, det_id: &DetThreadId, came: &mut Came<DetThreadId, T>) -> (poll: Poll<T>)
        requires
            old(came).end() == (*self).end(),
        ensures
            (*self).poll_gives(det_id@, poll),
            final(came).follows(*old(came), poll),
    {
        let f = seconds;
        let duration = f(1);
        let got = self.recv_timeout(det_id, duration, came);
        assert(is_seconds(1, duration));
        match got {
            Ok(m) => Ok(m),
            Err(e) => Err(RecvErrorRR::from(e)),
        }
    }
}

/// What a plain receive and the attempts of a replay give on a channel: a blocking receive.
pub open spec fn kind_recv<T>(kind: ChannelKind<T>, det_id: Seq<u32>) -> spec_fn(
    Result<DetMessage<T>, RecvErrorDef>,
) -> bool {
    |got: Result<DetMessage<T>, RecvErrorDef>| kind.recv_gives(det_id, got)
}

/// A receive that does not wait.
pub open spec fn kind_try_recv<T>(kind: ChannelKind<T>, det_id: Seq<u32>) -> spec_fn(
    Result<DetMessage<T>, TryRecvErrorDef>,
) -> bool {
    |got: Result<DetMessage<T>, TryRecvErrorDef>| kind.try_recv_gives(det_id, got)
}

/// A receive with a timeout.
pub open spec fn kind_recv_timeout<T>(
    kind: ChannelKind<T>,
    det_id: Seq<u32>,
    timeout: Duration,
) -> spec_fn(Result<DetMessage<T>, RecvTimeoutErrorDef>) -> bool {
    |got: Result<DetMessage<T>, RecvTimeoutErrorDef>| kind.recv_timeout_gives(det_id, timeout, got)
}

/// An attempt of a replay.
pub open spec fn kind_poll<T>(kind: ChannelKind<T>, det_id: Seq<u32>) -> spec_fn(Poll<T>) -> bool {
    |poll: Poll<T>| kind.poll_gives(det_id, poll)
}

/// An end in the hands of the thread `det_id`, with the record of what came. `R` tells how it
/// receives.
#[verifier::reject_recursive_types(T)]
pub struct Handle<'a, T, R> {
    pub kind: &'a ChannelKind<T>,
    pub det_id: &'a DetThreadId,
    pub how: R,
    pub came: Came<DetThreadId, T>,
}

/// Blocks until a message comes.
pub struct Blocking {}

/// Does not wait.
pub struct Trying {}

/// Waits no longer than this.
pub struct Within {
    pub timeout: Duration,
}

impl<'a, T> Source<DetThreadId, T, RecvErrorDef> for Handle<'a, T, Blocking> {
    type End = RealEnd<DetThreadId, T>;

    open spec fn end(&self) -> RealEnd<DetThreadId, T> {
        self.came.end()
    }

    open spec fn direct(&self) -> spec_fn(Result<DetMessage<T>, RecvErrorDef>) -> bool {
        kind_recv(*self.kind, self.det_id@)
    }

    open spec fn polled(&self) -> spec_fn(Poll<T>) -> bool {
        kind_poll(*self.kind, self.det_id@)
    }

    open spec fn came(&self) -> Seq<Option<DetMessage<T>>> {
        self.came.seen()
    }

    open spec fn can_recv(&self) -> bool {
        self.came.end() == self.kind.end()
    }

    open spec fn can_poll(&self) -> bool {
        self.came.end() == self.kind.end()
    }

    fn recv(&mut self) -> (got: Result<DetMessage<T>, RecvErrorDef>) {
        self.kind.recv(self.det_id, &mut self.came)
    }

    fn poll(&mut self) -> (poll: Poll<T>) {
        self.kind.poll(self.det_id, &mut self.came)
    }
}

impl<'a, T> Source<DetThreadId, T, TryRecvErrorDef> for Handle<'a, T, Trying> {
    type End = RealEnd<DetThreadId, T>;

    open spec fn end(&self) -> RealEnd<DetThreadId, T> {
        self.came.end()
    }

    open spec fn direct(&self) -> spec_fn(Result<DetMessage<T>, TryRecvErrorDef>) -> bool {
        kind_try_recv(*self.kind, self.det_id@)
    }

    open spec fn polled(&self) -> spec_fn(Poll<T>) -> bool {
        kind_poll(*self.kind, self.det_id@)
    }

    open spec fn came(&self) -> Seq<Option<DetMessage<T>>> {
        self.came.seen()
    }

    open spec fn can_recv(&self) -> bool {
        self.came.end() == self.kind.end()
    }

    open spec fn can_poll(&self) -> bool {
        self.came.end() == self.kind.end()
    }

    fn recv(&mut self) -> (got: Result<DetMessage<T>, TryRecvErrorDef>) {
        self.kind.try_recv(self.det_id, &mut self.came)
    }

    fn poll(&mut self) -> (poll: Poll<T>) {
        self.kind.poll(self.det_id, &mut self.came)
    }
}

impl<'a, T> Source<DetThreadId, T, RecvTimeoutErrorDef> for Handle<'a, T, Within> {
    type End = RealEnd<DetThreadId, T>;

    open spec fn end(&self) -> RealEnd<DetThreadId, T> {
        self.came.end()
    }

    open spec fn direct(&self) -> spec_fn(Result<DetMessage<T>, RecvTimeoutErrorDef>) -> bool {
        kind_recv_timeout(*self.kind, self.det_id@, self.how.timeout)
    }

    open spec fn polled(&self) -> spec_fn(Poll<T>) -> bool {
        kind_poll(*self.kind, self.det_id@)
    }

    open spec fn came(&self) -> Seq<Option<DetMessage<T>>> {
        self.came.seen()
    }

    open spec fn can_recv(&self) -> bool {
        self.came.end() == self.kind.end()
    }

    open spec fn can_poll(&self) -> bool {
        self.came.end() == self.kind.end()
    }

    fn recv(&mut self) -> (got: Result<DetMessage<T>, RecvTimeoutErrorDef>) {
        self.kind.recv_timeout(self.det_id, self.how.timeout, &mut self.came)
    }

    fn poll(&mut self) -> (poll: Poll<T>) {
        self.kind.poll(self.det_id, &mut self.came)
    }
}

/// The receiving end of a crossbeam channel.
#[verifier::reject_recursive_types(T)]
pub struct Receiver<T> {
    /// Messages that came before those that the replay had to wait for.
    pub buffer: BufferedValues<T>,
    pub receiver: ChannelKind<T>,
    pub metadata: RecordMetadata,
    pub mode: RRMode,
    /// The record of all that was received.
    pub came: Option<Came<DetThreadId, T>>,
}

/// Whether there is a message from `sender`, found among those that are kept or by receiving.
pub open spec fn polled_entry<T>(
    queues: Map<Seq<u32>, Seq<T>>,
    sender: Seq<u32>,
    polled: spec_fn(Poll<T>) -> bool,
    r: Result<bool, DesyncErrorView>,
    after: Map<Seq<u32>, Seq<T>>,
) -> bool {
    if queue_of(queues, sender).len() > 0 {
        r == Ok::<bool, DesyncErrorView>(true) && after == queues
    } else {
        exists|found: Result<T, DesyncErrorView>, mid: Map<Seq<u32>, Seq<T>>|
            {
                &&& #[trigger] recv_expected(queues, sender, polled, found, mid)
                &&& match found {
                    Ok(msg) => r == Ok::<bool, DesyncErrorView>(true) && after == keep(
                        mid,
                        sender,
                        msg,
                    ),
                    Err(DesyncErrorView::Timeout(_)) => r == Ok::<bool, DesyncErrorView>(false)
                        && after == mid,
                    Err(e) => r == Err::<bool, DesyncErrorView>(e) && after == mid,
                }
            }
    }
}

/// The variant of a channel.
pub open spec fn marker<T>(receiver: ChannelKind<T>) -> ChannelVariant {
    match receiver {
        ChannelKind::Unbounded(_) => ChannelVariant::CbUnbounded,
        ChannelKind::After(_) => ChannelVariant::CbAfter,
        ChannelKind::Bounded(_) => ChannelVariant::CbBounded,
        ChannelKind::Never(_) => ChannelVariant::CbNever,
    }
}

impl<T> Receiver<T> {
    pub open spec fn wf(self) -> bool {
        &&& self.buffer.wf()
        &&& self.came matches Some(came)
        &&& came.end() == self.receiver.end()
    }

    /// What each receive on the channel took off it, oldest first.
    pub open spec fn came(self) -> Seq<Option<DetMessage<T>>> {
        self.came->0.seen()
    }

    /// The messages that are kept, by sender.
    pub open spec fn queues(self) -> Map<Seq<u32>, Seq<T>> {
        contents(self.buffer)
    }

    /// Both are the same end of the same channel, whatever they keep.
    pub open spec fn same_channel(self, other: Receiver<T>) -> bool {
        &&& self.receiver == other.receiver
        &&& self.metadata == other.metadata
        &&& self.mode == other.mode
    }

    /// The thread can use this receiver. A thread without an id can neither record nor replay,
    /// and cannot tag messages with its id.
    pub open spec fn usable(self, thread: ThreadView) -> bool {
        thread.initialized || (self.mode == RRMode::NoRR && !(self.receiver is After))
    }

    /// What a blocking receive of the thread may give.
    pub open spec fn recv_wire(self, thread: ThreadView) -> Wire<T, RecvErrorDef> {
        Wire {
            direct: |got: Result<DetMessage<T>, RecvErrorDef>|
                self.receiver.recv_gives(thread.det_id, got),
            polled: |poll: Poll<T>| self.receiver.poll_gives(thread.det_id, poll),
        }
    }

    /// What a receive of the thread that does not wait may give.
    pub open spec fn try_recv_wire(self, thread: ThreadView) -> Wire<T, TryRecvErrorDef> {
        Wire {
            direct: |got: Result<DetMessage<T>, TryRecvErrorDef>|
                self.receiver.try_recv_gives(thread.det_id, got),
            polled: |poll: Poll<T>| self.receiver.poll_gives(thread.det_id, poll),
        }
    }

    /// What a receive of the thread with a timeout may give.
    pub open spec fn recv_timeout_wire(self, thread: ThreadView, timeout: Duration) -> Wire<
        T,
        RecvTimeoutErrorDef,
    > {
        Wire {
            direct: |got: Result<DetMessage<T>, RecvTimeoutErrorDef>|
                self.receiver.recv_timeout_gives(thread.det_id, timeout, got),
            polled: |poll: Poll<T>| self.receiver.poll_gives(thread.det_id, poll),
        }
    }

    pub fn new(
        mode: RRMode,
        real_receiver: ChannelKind<T>,
        id: DetChannelId,
        message_type: String,
    ) -> (receiver: Receiver<T>)
        ensures
            receiver.wf(),
            receiver.queues() == Map::<Seq<u32>, Seq<T>>::empty(),
            receiver.came() == Seq::<Option<DetMessage<T>>>::empty(),
            receiver.receiver == real_receiver,
            receiver.mode == mode,
            receiver.metadata == (RecordMetadata {
                message_type,
                channel_variant: marker(real_receiver),
                id,
            }),
    {
        let variant = Receiver::get_marker(&real_receiver);
        let (real_receiver, came) = real_receiver.start();
        let receiver = Receiver {
            buffer: ThreadMap::new(),
            receiver: real_receiver,
            metadata: RecordMetadata::new(message_type, variant, id),
            mode,
            came: Some(came),
        };
        assert(receiver.queues() =~= Map::<Seq<u32>, Seq<T>>::empty());
        receiver
    }

    pub fn get_marker(receiver: &ChannelKind<T>) -> (variant: ChannelVariant)
        ensures
            variant == marker(*receiver),
    {
        match receiver {
            ChannelKind::Unbounded(_) => ChannelVariant::CbUnbounded,
            ChannelKind::After(_) => ChannelVariant::CbAfter,
            ChannelKind::Bounded(_) => ChannelVariant::CbBounded,
            ChannelKind::Never(_) => ChannelVariant::CbNever,
        }
    }

    /// Receives a message, blocking until one comes.
    pub fn recv(&mut self, thread: &mut ThreadState) -> (r: Step<Result<T, RecvErrorDef>>)
        requires
            old(self).wf(),
            old(self).usable(old(thread)@),
        ensures
            final(self).wf(),
            final(self).same_channel(*old(self)),
            recv_step(
                old(self).mode,
                old(self).metadata@,
                old(self).recv_wire(old(thread)@),
                old(thread)@,
                old(self).queues(),
                r,
                final(thread)@,
                final(self).queues(),
            ),
            step_takes(
                old(self).mode,
                old(thread)@.log.written,
                old(self).queues(),
                old(self).came(),
                r,
                final(thread)@.log.written,
                final(self).came(),
                final(self).queues(),
            ),
    {
        let det_id = thread.det_id.clone();
        let came = self.came.take().unwrap();
        let mut handle = Handle { kind: &self.receiver, det_id: &det_id, how: Blocking {  }, came };
        let r = receive(thread, self.mode, &self.metadata, &mut handle, &mut self.buffer);
        self.came = Some(handle.came);
        proof {
            lemma_recv_weaken(
                self.mode,
                self.metadata@,
                Wire {
                    direct: kind_recv(old(self).receiver, old(thread)@.det_id),
                    polled: kind_poll(old(self).receiver, old(thread)@.det_id),
                },
                old(self).recv_wire(old(thread)@),
                old(thread)@,
                old(self).queues(),
                r,
                thread@,
                self.queues(),
            );
        }
        r
    }

    /// Completes a `recv` whose thread was woken up by a desynchronization.
    pub fn recv_after_wakeup(&mut self, thread: &mut ThreadState) -> (r: Step<
        Result<T, RecvErrorDef>,
    >)
        requires
            old(self).wf(),
            old(self).usable(old(thread)@),
        ensures
            final(self).wf(),
            final(self).same_channel(*old(self)),
            desync_step(
                DesyncErrorView::DesynchronizedWakeup,
                old(self).recv_wire(old(thread)@).direct,
                old(thread)@,
                old(self).queues(),
                r,
                final(thread)@,
                final(self).queues(),
            ),
            conserves(
                old(self).queues(),
                old(self).came(),
                step_message(r),
                final(self).came(),
                final(self).queues(),
            ),
    {
        let det_id = thread.det_id.clone();
        let came = self.came.take().unwrap();
        let mut handle = Handle { kind: &self.receiver, det_id: &det_id, how: Blocking {  }, came };
        let r = handle_desync(
            thread,
            DesyncError::DesynchronizedWakeup,
            &mut handle,
            &mut self.buffer,
        );
        self.came = Some(handle.came);
        proof {
            lemma_desync_weaken(
                DesyncErrorView::DesynchronizedWakeup,
                kind_recv(old(self).receiver, old(thread)@.det_id),
                old(self).recv_wire(old(thread)@).direct,
                old(thread)@,
                old(self).queues(),
                r,
                thread@,
                self.queues(),
            );
        }
        r
    }

    /// Receives a message if one is there.
    pub fn try_recv(&mut self, thread: &mut ThreadState) -> (r: Step<Result<T, TryRecvErrorDef>>)
        requires
            old(self).wf(),
            old(self).usable(old(thread)@),
        ensures
            final(self).wf(),
            final(self).same_channel(*old(self)),
            recv_step(
                old(self).mode,
                old(self).metadata@,
                old(self).try_recv_wire(old(thread)@),
                old(thread)@,
                old(self).queues(),
                r,
                final(thread)@,
                final(self).queues(),
            ),
            step_takes(
                old(self).mode,
                old(thread)@.log.written,
                old(self).queues(),
                old(self).came(),
                r,
                final(thread)@.log.written,
                final(self).came(),
                final(self).queues(),
            ),
    {
        let det_id = thread.det_id.clone();
        let came = self.came.take().unwrap();
        let mut handle = Handle { kind: &self.receiver, det_id: &det_id, how: Trying {  }, came };
        let r = receive(thread, self.mode, &self.metadata, &mut handle, &mut self.buffer);
        self.came = Some(handle.came);
        proof {
            lemma_recv_weaken(
                self.mode,
                self.metadata@,
                Wire {
                    direct: kind_try_recv(old(self).receiver, old(thread)@.det_id),
                    polled: kind_poll(old(self).receiver, old(thread)@.det_id),
                },
                old(self).try_recv_wire(old(thread)@),
                old(thread)@,
                old(self).queues(),
                r,
                thread@,
                self.queues(),
            );
        }
        r
    }

    /// Completes a `try_recv` whose thread was woken up by a desynchronization.
    pub fn try_recv_after_wakeup(&mut self, thread: &mut ThreadState) -> (r: Step<
        Result<T, TryRecvErrorDef>,
    >)
        requires
            old(self).wf(),
            old(self).usable(old(thread)@),
        ensures
            final(self).wf(),
            final(self).same_channel(*old(self)),
            desync_step(
                DesyncErrorView::DesynchronizedWakeup,
                old(self).try_recv_wire(old(thread)@).direct,
                old(thread)@,
                old(self).queues(),
                r,
                final(thread)@,
                final(self).queues(),
            ),
            conserves(
                old(self).queues(),
                old(self).came(),
                step_message(r),
                final(self).came(),
                final(self).queues(),
            ),
    {
        let det_id = thread.det_id.clone();
        let came = self.came.take().unwrap();
        let mut handle = Handle { kind: &self.receiver, det_id: &det_id, how: Trying {  }, came };
        let r = handle_desync(
            thread,
            DesyncError::DesynchronizedWakeup,
            &mut handle,
            &mut self.buffer,
        );
        self.came = Some(handle.came);
        proof {
            lemma_desync_weaken(
                DesyncErrorView::DesynchronizedWakeup,
                kind_try_recv(old(self).receiver, old(thread)@.det_id),
                old(self).try_recv_wire(old(thread)@).direct,
                old(thread)@,
                old(self).queues(),
                r,
                thread@,
                self.queues(),
            );
        }
        r
    }

    /// Receives a message, waiting no longer than `timeout`.
    pub fn recv_timeout(
        &mut self,
        thread: &mut ThreadState,
        timeout: Duration,
    ) -> (r: Step<Result<T, RecvTimeoutErrorDef>>)
        requires
            old(self).wf(),
            old(self).usable(old(thread)@),
        ensures
            final(self).wf(),
            final(self).same_channel(*old(self)),
            recv_step(
                old(self).mode,
                old(self).metadata@,
                old(self).recv_timeout_wire(old(thread)@, timeout),
                old(thread)@,
                old(self).queues(),
                r,
                final(thread)@,
                final(self).queues(),
            ),
            step_takes(
                old(self).mode,
                old(thread)@.log.written,
                old(self).queues(),
                old(self).came(),
                r,
                final(thread)@.log.written,
                final(self).came(),
                final(self).queues(),
            ),
    {
        let det_id = thread.det_id.clone();
        let came = self.came.take().unwrap();
        let mut handle = Handle {
            kind: &self.receiver,
            det_id: &det_id,
            how: Within { timeout },
            came,
        };
        let r = receive(thread, self.mode, &self.metadata, &mut handle, &mut self.buffer);
        self.came = Some(handle.came);
        proof {
            lemma_recv_weaken(
                self.mode,
                self.metadata@,
                Wire {
                    direct: kind_recv_timeout(old(self).receiver, old(thread)@.det_id, timeout),
                    polled: kind_poll(old(self).receiver, old(thread)@.det_id),
                },
                old(self).recv_timeout_wire(old(thread)@, timeout),
                old(thread)@,
                old(self).queues(),
                r,
                thread@,
                self.queues(),
            );
        }
        r
    }

    /// Completes a `recv_timeout` whose thread was woken up by a desynchronization.
    pub fn recv_timeout_after_wakeup(
        &mut self,
        thread: &mut ThreadState,
        timeout: Duration,
    ) -> (r: Step<Result<T, RecvTimeoutErrorDef>>)
        requires
            old(self).wf(),
            old(self).usable(old(thread)@),
        ensures
            final(self).wf(),
            final(self).same_channel(*old(self)),
            desync_step(
                DesyncErrorView::DesynchronizedWakeup,
                old(self).recv_timeout_wire(old(thread)@, timeout).direct,
                old(thread)@,
                old(self).queues(),
                r,
                final(thread)@,
                final(self).queues(),
            ),
            conserves(
                old(self).queues(),
                old(self).came(),
                step_message(r),
                final(self).came(),
                final(self).queues(),
            ),
    {
        let det_id = thread.det_id.clone();
        let came = self.came.take().unwrap();
        let mut handle = Handle {
            kind: &self.receiver,
            det_id: &det_id,
            how: Within { timeout },
            came,
        };
        let r = handle_desync(
            thread,
            DesyncError::DesynchronizedWakeup,
            &mut handle,
            &mut self.buffer,
        );
        self.came = Some(handle.came);
        proof {
            lemma_desync_weaken(
                DesyncErrorView::DesynchronizedWakeup,
                kind_recv_timeout(old(self).receiver, old(thread)@.det_id, timeout),
                old(self).recv_timeout_wire(old(thread)@, timeout).direct,
                old(thread)@,
                old(self).queues(),
                r,
                thread@,
                self.queues(),
            );
        }
        r
    }

    /// Receives a message from `sender`. Messages from others are kept.
    pub fn replay_recv(&mut self, thread: &ThreadState, sender: &DetThreadId) -> (r: Result<
        T,
        DesyncError,
    >)
        requires
            old(self).wf(),
            old(self).usable(thread@),
        ensures
            final(self).wf(),
            final(self).same_channel(*old(self)),
            recv_expected(
                old(self).queues(),
                sender@,
                old(self).recv_wire(thread@).polled,
                result_view(r),
                final(self).queues(),
            ),
            waited(
                old(self).queues(),
                sender@,
                kind_poll(old(self).receiver, thread@.det_id),
                old(self).came(),
                result_view(r),
                final(self).came(),
                final(self).queues(),
            ),
    {
        let came = self.came.take().unwrap();
        let mut handle = Handle {
            kind: &self.receiver,
            det_id: &thread.det_id,
            how: Blocking {  },
            came,
        };
        let r = wait_for::<DetThreadId, T, RecvErrorDef, Handle<T, Blocking>>(
            sender,
            &mut handle,
            &mut self.buffer,
        );
        self.came = Some(handle.came);
        proof {
            lemma_expected_weaken(
                old(self).queues(),
                sender@,
                kind_poll(old(self).receiver, thread@.det_id),
                old(self).recv_wire(thread@).polled,
                result_view(r),
                self.queues(),
            );
        }
        r
    }

    /// Takes any message that was kept. Of use once the replay no longer matters.
    pub fn get_buffered_value(&mut self) -> (msg: Option<T>)
        requires
            old(self).wf(),
        ensures
            final(self).wf(),
            final(self).same_channel(*old(self)),
            final(self).came() == old(self).came(),
            match msg {
                Some(m) => took_some(old(self).queues(), m, final(self).queues()),
                None => all_empty(old(self).queues()) && final(self).queues()
                    == old(self).queues(),
            },
    {
        self.buffer.pop_any_message()
    }

    /// Whether any message is kept.
    pub fn buffered_value(&self) -> (found: bool)
        requires
            self.wf(),
        ensures
            found == !all_empty(self.queues()),
    {
        self.buffer.has_any_message()
    }

    /// Whether there is a message from `sender`. A message that has to be taken off the channel
    /// to find out is kept. Also when there is none, messages from others may have to be kept.
    /// Fails if the channel is disconnected.
    pub fn poll_entry(&mut self, thread: &ThreadState, sender: &DetThreadId) -> (r: Result<
        bool,
        DesyncError,
    >)
        requires
            old(self).wf(),
            old(self).usable(thread@),
        ensures
            final(self).wf(),
            final(self).same_channel(*old(self)),
            polled_entry(
                old(self).queues(),
                sender@,
                old(self).recv_wire(thread@).polled,
                result_view(r),
                final(self).queues(),
            ),
            conserves(
                old(self).queues(),
                old(self).came(),
                None,
                final(self).came(),
                final(self).queues(),
            ),
    {
        if self.buffer.has_message(sender) {
            proof {
                lemma_idle_conserves::<DetThreadId, T>(self.queues(), self.came());
            }
            return Ok(true);
        }
        let found = self.replay_recv(thread, sender);
        let ghost seen = result_view(found);
        let ghost mid = self.queues();
        assert(recv_expected(
            old(self).queues(),
            sender@,
            old(self).recv_wire(thread@).polled,
            seen,
            mid,
        ));
        proof {
            lemma_waited(
                old(self).queues(),
                sender@,
                kind_poll(old(self).receiver, thread@.det_id),
                old(self).came(),
                seen,
                self.came(),
                mid,
            );
            if let Ok(msg) = seen {
                lemma_kept_again(
                    old(self).queues(),
                    sender@,
                    kind_poll(old(self).receiver, thread@.det_id),
                    old(self).came(),
                    msg,
                    self.came(),
                    mid,
                );
            }
        }
        match found {
            Ok(msg) => {
                self.buffer.push_message(sender.clone(), msg);
                Ok(true)
            },
            Err(DesyncError::Timeout(_)) => Ok(false),
            Err(e) => Err(e),
        }
    }
}

/// `ends` are the ends of a new channel of the given kind.
pub open spec fn is_new_channel<T>(
    thread: ThreadView,
    message_type: String,
    variant: ChannelVariant,
    ends: (Sender<T>, Receiver<T>),
) -> bool {
    let metadata = MetadataView {
        message_type: message_type@,
        channel_variant: variant,
        id: DetChannelId::next_view(thread),
    };
    &&& ends.0.metadata@ == metadata
    &&& ends.0.mode == thread.mode
    &&& is_new_receiver(thread, message_type, variant, ends.1)
}

/// `receiver` is the receiving end of a new channel of the given kind.
pub open spec fn is_new_receiver<T>(
    thread: ThreadView,
    message_type: String,
    variant: ChannelVariant,
    receiver: Receiver<T>,
) -> bool {
    &&& receiver.wf()
    &&& receiver.queues() == Map::<Seq<u32>, Seq<T>>::empty()
    &&& receiver.came() == Seq::<Option<DetMessage<T>>>::empty()
    &&& receiver.mode == thread.mode
    &&& receiver.metadata@ == (MetadataView {
        message_type: message_type@,
        channel_variant: variant,
        id: DetChannelId::next_view(thread),
    })
}

/// A receiver that delivers the time once `duration` has passed. `message_type` names the type of
/// its message.
pub fn after(thread: &mut ThreadState, duration: Duration, message_type: String) -> (r: Result<
    Receiver<Instant>,
    DesyncError,
>)
    requires
        old(thread)@.initialized,
    ensures
        created(old(thread)@, ChannelVariant::CbAfter, message_type@, r, final(thread)@),
        r matches Ok(receiver) ==> {
            &&& is_new_receiver(old(thread)@, message_type, ChannelVariant::CbAfter, receiver)
            &&& match receiver.receiver {
                ChannelKind::After(inner) => crossbeam_after_gave(duration, inner),
                _ => false,
            }
        },
{
    let id = DetChannelId::generate_new_unique_channel_id(thread);
    let f = crossbeam_after;
    let receiver = Receiver::new(thread.mode, ChannelKind::After(f(duration)), id, message_type);
    match record_creation(thread, &receiver.metadata) {
        Ok(_) => Ok(receiver),
        Err(e) => Err(e),
    }
}

/// A channel without a bound. `message_type` names the type of its messages.
pub fn unbounded<T>(thread: &mut ThreadState, message_type: String) -> (r: Result<
    (Sender<T>, Receiver<T>),
    DesyncError,
>)
    requires
        old(thread)@.initialized,
    ensures
        created(old(thread)@, ChannelVariant::CbUnbounded, message_type@, r, final(thread)@),
        r matches Ok(ends) ==> {
            &&& is_new_channel(old(thread)@, message_type, ChannelVariant::CbUnbounded, ends)
            &&& match ends.1.receiver {
                ChannelKind::Unbounded(inner) => crossbeam_unbounded_gave((ends.0.sender, inner)),
                _ => false,
            }
        },
{
    let f = crossbeam_unbounded::<DetMessage<T>>;
    let (sender, receiver) = f();
    let id = DetChannelId::generate_new_unique_channel_id(thread);
    let metadata = RecordMetadata::new(
        message_type.clone(),
        ChannelVariant::CbUnbounded,
        id.clone(),
    );
    match record_creation(thread, &metadata) {
        Ok(_) => Ok(
            (
                Sender::new(sender, metadata, thread.mode),
                Receiver::new(thread.mode, ChannelKind::Unbounded(receiver), id, message_type),
            ),
        ),
        Err(e) => Err(e),
    }
}

/// A channel that holds at most `cap` messages. `message_type` names the type of its messages.
pub fn bounded<T>(thread: &mut ThreadState, cap: usize, message_type: String) -> (r: Result<
    (Sender<T>, Receiver<T>),
    DesyncError,
>)
    requires
        old(thread)@.initialized,
        fits::<DetMessage<T>>(cap),
    ensures
        created(old(thread)@, ChannelVariant::CbBounded, message_type@, r, final(thread)@),
        r matches Ok(ends) ==> {
            &&& is_new_channel(old(thread)@, message_type, ChannelVariant::CbBounded, ends)
            &&& match ends.1.receiver {
                ChannelKind::Bounded(inner) => crossbeam_bounded_gave(cap, (ends.0.sender, inner)),
                _ => false,
            }
        },
{
    let f = crossbeam_bounded::<DetMessage<T>>;
    let (sender, receiver) = f(cap);
    let id = DetChannelId::generate_new_unique_channel_id(thread);
    let metadata = RecordMetadata::new(message_type.clone(), ChannelVariant::CbBounded, id.clone());
    match record_creation(thread, &metadata) {
        Ok(_) => Ok(
            (
                Sender::new(sender, metadata, thread.mode),
                Receiver::new(thread.mode, ChannelKind::Bounded(receiver), id, message_type),
            ),
        ),
        Err(e) => Err(e),
    }
}

/// A receiver that never delivers a message. `message_type` names the type of its messages.
pub fn never<T>(thread: &mut ThreadState, message_type: String) -> (r: Result<
    Receiver<T>,
    DesyncError,
>)
    requires
        old(thread)@.initialized,
    ensures
        created(old(thread)@, ChannelVariant::CbNever, message_type@, r, final(thread)@),
        r matches Ok(receiver) ==> {
            &&& is_new_receiver(old(thread)@, message_type, ChannelVariant::CbNever, receiver)
            &&& receiver.receiver.is_silent()
            &&& match receiver.receiver {
                ChannelKind::Never(inner) => crossbeam_never_gave(inner),
                _ => false,
            }
        },
{
    let id = DetChannelId::generate_new_unique_channel_id(thread);
    let f = crossbeam_never::<DetMessage<T>>;
    let receiver = Receiver::new(thread.mode, ChannelKind::Never(f()), id, message_type);
    match record_creation(thread, &receiver.metadata) {
        Ok(_) => Ok(receiver),
        Err(e) => Err(e),
    }
}

} // verus!
