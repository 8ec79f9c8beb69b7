//! Record and replay for the channels of the standard library.

use vstd::prelude::*;
use std::time::Duration;
use crate::crossbeam::{Blocking, Trying, Within};
use crate::desync::{desync_step, handle_desync, lemma_desync_weaken, DetMessage, Step};
use crate::detthread::{DetThreadId, ThreadState, ThreadView};
use crate::error::{
    result_view, DesyncError, DesyncErrorView, MpscRecvErrorDef, MpscRecvTimeoutErrorDef,
    MpscTryRecvErrorDef, RecvErrorRR, SendError,
};
use crate::mode::RRMode;
use crate::recordlog::{ChannelVariant, MetadataView, RecordMetadata};
use crate::rr::{
    lemma_expected_weaken, lemma_recv_weaken, receive, recv_expected, recv_step, wait_for,
    DetChannelId, Poll, Wire,
};
use crate::send::{
    desync_send, lemma_desync_send_weaken, lemma_send_weaken, send_message, send_on_desync,
    send_step, SendStep, SenderKind,
};
use crate::source::{conserves, step_message, step_takes, waited, Source};
use crate::thread_map::{contents, BufferedValues, ThreadMap};
use crate::tivo::{created, record_creation};
use crate::wire::{
    fits, is_seconds, mpsc_channel, mpsc_channel_gave, mpsc_clone, mpsc_clone_gave, mpsc_recv_gave,
    mpsc_recv_timeout_gave, mpsc_send, mpsc_send_gave, mpsc_sync_channel, mpsc_sync_channel_gave,
    mpsc_sync_clone, mpsc_sync_clone_gave, mpsc_sync_send, mpsc_sync_send_gave, mpsc_try_recv_gave,
    seconds, take_std_recv, take_std_recv_timeout, take_std_try_recv, Came, RealEnd,
};

verus! {

/// The receiving ends of the kinds of standard library channels.
#[verifier::reject_recursive_types(T)]
pub enum RealReceiver<T> {
    Bounded(std::sync::mpsc::Receiver<DetMessage<T>>),
    Unbounded(std::sync::mpsc::Receiver<DetMessage<T>>),
}

/// The sending ends of the kinds of standard library channels.
#[verifier::reject_recursive_types(T)]
pub enum RealSender<T> {
    Bounded(std::sync::mpsc::SyncSender<DetMessage<T>>),
    Unbounded(std::sync::mpsc::Sender<DetMessage<T>>),
}

/// What a send of a tagged message gives back to the sender, who knows nothing of the tag.
pub open spec fn send_result<T>(raw: Result<(), DetMessage<T>>) -> Result<(), SendError<T>> {
    match raw {
        Ok(_) => Ok(()),
        Err((_, msg)) => Err(SendError(msg)),
    }
}

impl<T> RealSender<T> {
    /// Handing `m` to the channel may give `raw`.
    pub open spec fn raw_send_gave(self, m: DetMessage<T>, raw: Result<(), DetMessage<T>>) -> bool {
        match self {
            RealSender::Bounded(sender) => mpsc_sync_send_gave(sender, m, raw),
            RealSender::Unbounded(sender) => mpsc_send_gave(sender, m, raw),
        }
    }

    /// Handing `m` to the channel may give `gave`.
    pub open spec fn sends(self, m: DetMessage<T>, gave: Result<(), SendError<T>>) -> bool {
        exists|raw: Result<(), DetMessage<T>>| #[trigger]
            self.raw_send_gave(m, raw) && gave == send_result(raw)
    }

    /// Hands a tagged message to the channel.
    pub fn send(&self, t: DetMessage<T>) -> (gave: Result<(), SendError<T>>)
        ensures
            (*self).sends(t, gave),
            gave matches Err(e) ==> e.0 == t.1,
    {
        let ghost m = t;
        let raw = match self {
            RealSender::Bounded(sender) => {
                let f = mpsc_sync_send::<DetMessage<T>>;
                f(sender, t)
            },
            RealSender::Unbounded(sender) => {
                let f = mpsc_send::<DetMessage<T>>;
                f(sender, t)
            },
        };
        assert((*self).raw_send_gave(m, raw));
        match raw {
            Ok(_) => Ok(()),
            Err(back) => Err(SendError(back.1)),
        }
    }

    /// `copy` sends to the same channel.
    pub open spec fn is_clone(self, copy: RealSender<T>) -> bool {
        match (self, copy) {
            (RealSender::Bounded(s), RealSender::Bounded(c)) => mpsc_sync_clone_gave(s, c),
            (RealSender::Unbounded(s), RealSender::Unbounded(c)) => mpsc_clone_gave(s, c),
            _ => false,
        }
    }
}

impl<T: Clone> Clone for RealSender<T> {
    fn clone(&self) -> (copy: RealSender<T>)
        ensures
            (*self).is_clone(copy),
    {
        match self {
            RealSender::Bounded(sender) => {
                let f = mpsc_sync_clone::<DetMessage<T>>;
                RealSender::Bounded(f(sender))
            },
            RealSender::Unbounded(sender) => {
                let f = mpsc_clone::<DetMessage<T>>;
                RealSender::Unbounded(f(sender))
            },
        }
    }
}

/// What an attempt to receive with a timeout gives as a poll.
pub open spec fn as_poll<T>(got: Result<DetMessage<T>, MpscRecvTimeoutErrorDef>) -> Poll<T> {
    match got {
        Ok(m) => Ok(m),
        Err(MpscRecvTimeoutErrorDef::Timeout) => Err(RecvErrorRR::Timeout),
        Err(MpscRecvTimeoutErrorDef::Disconnected) => Err(RecvErrorRR::Disconnected),
    }
}

impl<T> RealReceiver<T> {
    /// The end that messages are taken from.
    pub open spec fn inner(self) -> std::sync::mpsc::Receiver<DetMessage<T>> {
        match self {
            RealReceiver::Bounded(receiver) => receiver,
            RealReceiver::Unbounded(receiver) => receiver,
        }
    }

    /// A blocking receive may give `got`.
    pub open spec fn recv_gives(self, got: Result<DetMessage<T>, MpscRecvErrorDef>) -> bool {
        mpsc_recv_gave(self.inner(), got)
    }

    /// A receive that does not wait may give `got`.
    pub open spec fn try_recv_gives(self, got: Result<DetMessage<T>, MpscTryRecvErrorDef>) -> bool {
        mpsc_try_recv_gave(self.inner(), got)
    }

    /// A receive that waits no longer than `duration` may give `got`.
    pub open spec fn recv_timeout_gives(
        self,
        duration: Duration,
        got: Result<DetMessage<T>, MpscRecvTimeoutErrorDef>,
    ) -> bool {
        mpsc_recv_timeout_gave(self.inner(), duration, got)
    }

    /// An attempt of a replay may give `poll`. Attempts time out after one second.
    pub open spec fn poll_gives(self, poll: Poll<T>) -> bool {
        exists|duration: Duration, got: Result<DetMessage<T>, MpscRecvTimeoutErrorDef>|
            {
                &&& is_seconds(1, duration)
                &&& #[trigger] self.recv_timeout_gives(duration, got)
                &&& poll == as_poll(got)
            }
    }

    /// The end itself.
    pub open spec fn end(self) -> RealEnd<DetThreadId, T> {
        RealEnd::Std(self.inner())
    }

    /// Starts the record of what is received.
    fn start(self) -> (r: (RealReceiver<T>, Came<DetThreadId, T>))
        ensures
            r.0 == self,
            r.1.end() == self.end(),
            r.1.seen() == Seq::<Option<DetMessage<T>>>::empty(),
    {
        match self {
            RealReceiver::Bounded(receiver) => {
                let (receiver, came) = Came::of_std(receiver);
                (RealReceiver::Bounded(receiver), came)
            },
            RealReceiver::Unbounded(receiver) => {
                let (receiver, came) = Came::of_std(receiver);
                (RealReceiver::Unbounded(receiver), came)
            },
        }
    }

    pub fn recv(
        &self,
        came: &mut Came<DetThreadId, T>,
    ) -> (got: Result<DetMessage<T>, MpscRecvErrorDef>)
        requires
            old(came).end() == (*self).end(),
        ensures
            (*self).recv_gives(got),
            final(came).follows(*old(came), got),
    {
        match self {
            RealReceiver::Bounded(receiver) | RealReceiver::Unbounded(receiver) => {
                take_std_recv(receiver, came)
            },
        }
    }

    pub fn try_recv(
        &self,
        came: &mut Came<DetThreadId, T>,
    ) -> (got: Result<DetMessage<T>, MpscTryRecvErrorDef>)
        requires
            old(came).end() == (*self).end(),
        ensures
            (*self).try_recv_gives(got),
            final(came).follows(*old(came), got),
    {
        match self {
            RealReceiver::Bounded(receiver) | RealReceiver::Unbounded(receiver) => {
                take_std_try_recv(receiver, came)
            },
        }
    }

    pub fn recv_timeout(
        &self,
        duration: Duration,
        came: &mut Came<DetThreadId, T>,
    ) -> (got: Result<DetMessage<T>, MpscRecvTimeoutErrorDef>)
        requires
            old(came).end() == (*self).end(),
        ensures
            (*self).recv_timeout_gives(duration, got),
            final(came).follows(*old(came), got),
    {
        match self {
            RealReceiver::Bounded(receiver) | RealReceiver::Unbounded(receiver) => {
                take_std_recv_timeout(receiver, duration, came)
            },
        }
    }

    /// One attempt of a replay to receive.
    fn poll(&self, came: &mut Came<DetThreadId, T>) -> (poll: Poll<T>)
        requires
            old(came).end() == (*self).end(),
        ensures
            (*self).poll_gives(poll),
            final(came).follows(*old(came), poll),
    {
        let f = seconds;
        let duration = f(1);
        let got = self.recv_timeout(duration, came);
        assert(is_seconds(1, duration));
        match got {
            Ok(m) => Ok(m),
            Err(e) => Err(RecvErrorRR::from(e)),
        }
    }
}

/// The sending end of a standard library channel.
#[verifier::reject_recursive_types(T)]
pub struct Sender<T> {
    pub sender: RealSender<T>,
    pub metadata: RecordMetadata,
    pub mode: RRMode,
}

impl<T> Sender<T> {
    /// Hands the message, tagged with the thread that sends it, to the channel.
    pub fn underlying_send(&self, thread_id: DetThreadId, msg: T) -> (gave: Result<
        (),
        SendError<T>,
    >)
        ensures
            self.sender.sends((thread_id, msg), gave),
            gave matches Err(e) ==> e.0 == msg,
    {
        self.sender.send((thread_id, msg))
    }

    /// Sends a message.
    pub fn send(&self, thread: &mut ThreadState, msg: T) -> (r: SendStep<T, SendError<T>>)
        requires
            old(thread)@.initialized,
        ensures
            send_step(
                SenderKind::Mpsc,
                self.mode,
                self.metadata@,
                |m: DetMessage<T>, gave: Result<(), SendError<T>>| self.sender.sends(m, gave),
                old(thread)@,
                msg,
                r,
                final(thread)@,
            ),
    {
        let f = |thread_id: DetThreadId, m: T| -> (gave: Result<(), SendError<T>>)
            ensures
                self.sender.sends((thread_id, m), gave),
            { self.underlying_send(thread_id, m) };
        let r = send_message(thread, SenderKind::Mpsc, msg, self.mode, &self.metadata, &f);
        proof {
            lemma_send_weaken(
                SenderKind::Mpsc,
                self.mode,
                self.metadata@,
                |m: DetMessage<T>, gave: Result<(), SendError<T>>| call_ensures(f, m, gave),
                |m: DetMessage<T>, gave: Result<(), SendError<T>>| self.sender.sends(m, gave),
                old(thread)@,
                msg,
                r,
                thread@,
            );
        }
        r
    }

    /// Completes a `send` whose thread was woken up by a desynchronization.
    pub fn send_after_wakeup(&self, thread: &mut ThreadState, msg: T) -> (r: SendStep<
        T,
        SendError<T>,
    >)
        requires
            old(thread)@.initialized,
        ensures
            desync_send(
                DesyncErrorView::DesynchronizedWakeup,
                |m: DetMessage<T>, gave: Result<(), SendError<T>>| self.sender.sends(m, gave),
                old(thread)@,
                msg,
                r,
                final(thread)@,
            ),
    {
        let f = |thread_id: DetThreadId, m: T| -> (gave: Result<(), SendError<T>>)
            ensures
                self.sender.sends((thread_id, m), gave),
            { self.underlying_send(thread_id, m) };
        let r = send_on_desync(thread, DesyncError::DesynchronizedWakeup, msg, &f);
        proof {
            lemma_desync_send_weaken(
                DesyncErrorView::DesynchronizedWakeup,
                |m: DetMessage<T>, gave: Result<(), SendError<T>>| call_ensures(f, m, gave),
                |m: DetMessage<T>, gave: Result<(), SendError<T>>| self.sender.sends(m, gave),
                old(thread)@,
                msg,
                r,
                thread@,
            );
        }
        r
    }
}

impl<T: Clone> Clone for Sender<T> {
    /// Another sending end of the same channel. The blocking of a bounded channel is not preserved
    /// with several senders.
    fn clone(&self) -> (copy: Sender<T>)
        ensures
            copy.metadata@ == self.metadata@,
            copy.mode == self.mode,
            self.sender.is_clone(copy.sender),
    {
        Sender { sender: self.sender.clone(), metadata: self.metadata.clone(), mode: self.mode }
    }
}

/// What a blocking receive on an end may give.
pub open spec fn end_recv<T>(end: RealReceiver<T>) -> spec_fn(
    Result<DetMessage<T>, MpscRecvErrorDef>,
) -> bool {
    |got: Result<DetMessage<T>, MpscRecvErrorDef>| end.recv_gives(got)
}

/// What a receive on an end that does not wait may give.
pub open spec fn end_try_recv<T>(end: RealReceiver<T>) -> spec_fn(
    Result<DetMessage<T>, MpscTryRecvErrorDef>,
) -> bool {
    |got: Result<DetMessage<T>, MpscTryRecvErrorDef>| end.try_recv_gives(got)
}

/// What a receive on an end with a timeout may give.
pub open spec fn end_recv_timeout<T>(end: RealReceiver<T>, timeout: Duration) -> spec_fn(
    Result<DetMessage<T>, MpscRecvTimeoutErrorDef>,
) -> bool {
    |got: Result<DetMessage<T>, MpscRecvTimeoutErrorDef>| end.recv_timeout_gives(timeout, got)
}

/// What an attempt of a replay on an end may give.
pub open spec fn end_poll<T>(end: RealReceiver<T>) -> spec_fn(Poll<T>) -> bool {
    |poll: Poll<T>| end.poll_gives(poll)
}

/// An end in the hands of a thread, with the record of what came. `R` tells how it receives.
#[verifier::reject_recursive_types(T)]
pub struct Handle<'a, T, R> {
    pub receiver: &'a RealReceiver<T>,
    pub how: R,
    pub came: Came<DetThreadId, T>,
}

impl<'a, T> Source<DetThreadId, T, MpscRecvErrorDef> for Handle<'a, T, Blocking> {
    type End = RealEnd<DetThreadId, T>;

    open spec fn end(&self) -> RealEnd<DetThreadId, T> {
        self.came.end()
    }

    open spec fn direct(&self) -> spec_fn(Result<DetMessage<T>, MpscRecvErrorDef>) -> bool {
        end_recv(*self.receiver)
    }

    open spec fn polled(&self) -> spec_fn(Poll<T>) -> bool {
        end_poll(*self.receiver)
    }

    open spec fn came(&self) -> Seq<Option<DetMessage<T>>> {
        self.came.seen()
    }

    open spec fn can_recv(&self) -> bool {
        self.came.end() == self.receiver.end()
    }

    open spec fn can_poll(&self) -> bool {
        self.came.end() == self.receiver.end()
    }

    fn recv(&mut self) -> (got: Result<DetMessage<T>, MpscRecvErrorDef>) {
        self.receiver.recv(&mut self.came)
    }

    fn poll(&mut self) -> (poll: Poll<T>) {
        self.receiver.poll(&mut self.came)
    }
}

impl<'a, T> Source<DetThreadId, T, MpscTryRecvErrorDef> for Handle<'a, T, Trying> {
    type End = RealEnd<DetThreadId, T>;

    open spec fn end(&self) -> RealEnd<DetThreadId, T> {
        self.came.end()
    }

    open spec fn direct(&self) -> spec_fn(Result<DetMessage<T>, MpscTryRecvErrorDef>) -> bool {
        end_try_recv(*self.receiver)
    }

    open spec fn polled(&self) -> spec_fn(Poll<T>) -> bool {
        end_poll(*self.receiver)
    }

    open spec fn came(&self) -> Seq<Option<DetMessage<T>>> {
        self.came.seen()
    }

    open spec fn can_recv(&self) -> bool {
        self.came.end() == self.receiver.end()
    }

    open spec fn can_poll(&self) -> bool {
        self.came.end() == self.receiver.end()
    }

    fn recv(&mut self) -> (got: Result<DetMessage<T>, MpscTryRecvErrorDef>) {
        self.receiver.try_recv(&mut self.came)
    }

    fn poll(&mut self) -> (poll: Poll<T>) {
        self.receiver.poll(&mut self.came)
    }
}

impl<'a, T> Source<DetThreadId, T, MpscRecvTimeoutErrorDef> for Handle<'a, T, Within> {
    type End = RealEnd<DetThreadId, T>;

    open spec fn end(&self) -> RealEnd<DetThreadId, T> {
        self.came.end()
    }

    open spec fn direct(&self) -> spec_fn(Result<DetMessage<T>, MpscRecvTimeoutErrorDef>) -> bool {
        end_recv_timeout(*self.receiver, self.how.timeout)
    }

    open spec fn polled(&self) -> spec_fn(Poll<T>) -> bool {
        end_poll(*self.receiver)
    }

    open spec fn came(&self) -> Seq<Option<DetMessage<T>>> {
        self.came.seen()
    }

    open spec fn can_recv(&self) -> bool {
        self.came.end() == self.receiver.end()
    }

    open spec fn can_poll(&self) -> bool {
        self.came.end() == self.receiver.end()
    }

    fn recv(&mut self) -> (got: Result<DetMessage<T>, MpscRecvTimeoutErrorDef>) {
        self.receiver.recv_timeout(self.how.timeout, &mut self.came)
    }

    fn poll(&mut self) -> (poll: Poll<T>) {
        self.receiver.poll(&mut self.came)
    }
}

/// The receiving end of a standard library channel.
#[verifier::reject_recursive_types(T)]
pub struct Receiver<T> {
    pub receiver: RealReceiver<T>,
    pub metadata: RecordMetadata,
    /// Messages that came before those that the replay had to wait for.
    pub buffer: BufferedValues<T>,
    pub mode: RRMode,
    /// The record of all that was received.
    pub came: Option<Came<DetThreadId, T>>,
}

/// The variant of a channel.
pub open spec fn marker<T>(receiver: RealReceiver<T>) -> ChannelVariant {
    match receiver {
        RealReceiver::Unbounded(_) => ChannelVariant::MpscUnbounded,
        RealReceiver::Bounded(_) => ChannelVariant::MpscBounded,
    }
}

impl<T> Receiver<T> {
    pub open spec fn wf(self) -> bool {
        &&& self.buffer.wf()
        &&& self.came matches Some(came)
        &&& came.end() == self.receiver.end()
    }

    /// What each receive on the channel took off it, oldest first.
    pub open spec fn came(self) -> Seq<Option<DetMessage<T>>> {
        self.came->0.seen()
    }

    /// The messages that are kept, by sender.
    pub open spec fn queues(self) -> Map<Seq<u32>, Seq<T>> {
        contents(self.buffer)
    }

    /// Both are the same end of the same channel, whatever they keep.
    pub open spec fn same_channel(self, other: Receiver<T>) -> bool {
        &&& self.receiver == other.receiver
        &&& self.metadata == other.metadata
        &&& self.mode == other.mode
    }

    /// What a blocking receive may give.
    pub open spec fn recv_wire(self) -> Wire<T, MpscRecvErrorDef> {
        Wire {
            direct: |got: Result<DetMessage<T>, MpscRecvErrorDef>| self.receiver.recv_gives(got),
            polled: |poll: Poll<T>| self.receiver.poll_gives(poll),
        }
    }

    /// What a receive that does not wait may give.
    pub open spec fn try_recv_wire(self) -> Wire<T, MpscTryRecvErrorDef> {
        Wire {
            direct: |got: Result<DetMessage<T>, MpscTryRecvErrorDef>|
                self.receiver.try_recv_gives(got),
            polled: |poll: Poll<T>| self.receiver.poll_gives(poll),
        }
    }

    /// What a receive with a timeout may give.
    pub open spec fn recv_timeout_wire(self, timeout: Duration) -> Wire<
        T,
        MpscRecvTimeoutErrorDef,
    > {
        Wire {
            direct: |got: Result<DetMessage<T>, MpscRecvTimeoutErrorDef>|
                self.receiver.recv_timeout_gives(timeout, got),
            polled: |poll: Poll<T>| self.receiver.poll_gives(poll),
        }
    }

    pub fn new(
        mode: RRMode,
        real_receiver: RealReceiver<T>,
        id: DetChannelId,
        message_type: String,
    ) -> (receiver: Receiver<T>)
        ensures
            receiver.wf(),
            receiver.queues() == Map::<Seq<u32>, Seq<T>>::empty(),
            receiver.came() == Seq::<Option<DetMessage<T>>>::empty(),
            receiver.receiver == real_receiver,
            receiver.mode == mode,
            receiver.metadata == (RecordMetadata {
                message_type,
                channel_variant: marker(real_receiver),
                id,
            }),
    {
        let flavor = Receiver::get_marker(&real_receiver);
        let (real_receiver, came) = real_receiver.start();
        let receiver = Receiver {
            receiver: real_receiver,
            metadata: RecordMetadata::new(message_type, flavor, id),
            buffer: ThreadMap::new(),
            mode,
            came: Some(came),
        };
        assert(receiver.queues() =~= Map::<Seq<u32>, Seq<T>>::empty());
        receiver
    }

    /// The variant of a channel.
    pub fn get_marker(receiver: &RealReceiver<T>) -> (variant: ChannelVariant)
        ensures
            variant == marker(*receiver),
    {
        match receiver {
            RealReceiver::Unbounded(_) => ChannelVariant::MpscUnbounded,
            RealReceiver::Bounded(_) => ChannelVariant::MpscBounded,
        }
    }

    /// Receives a message, blocking until one comes.
    pub fn recv(&mut self, thread: &mut ThreadState) -> (r: Step<Result<T, MpscRecvErrorDef>>)
        requires
            old(self).wf(),
            old(thread)@.initialized || old(self).mode == RRMode::NoRR,
        ensures
            final(self).wf(),
            final(self).same_channel(*old(self)),
            recv_step(
                old(self).mode,
                old(self).metadata@,
                old(self).recv_wire(),
                old(thread)@,
                old(self).queues(),
                r,
                final(thread)@,
                final(self).queues(),
            ),
            step_takes(
                old(self).mode,
                old(thread)@.log.written,
                old(self).queues(),
                old(self).came(),
                r,
                final(thread)@.log.written,
                final(self).came(),
                final(self).queues(),
            ),
    {
        let came = self.came.take().unwrap();
        let mut handle = Handle { receiver: &self.receiver, how: Blocking {  }, came };
        let r = receive(thread, self.mode, &self.metadata, &mut handle, &mut self.buffer);
        self.came = Some(handle.came);
        proof {
            lemma_recv_weaken(
                self.mode,
                self.metadata@,
                Wire {
                    direct: end_recv(old(self).receiver),
                    polled: end_poll(old(self).receiver),
                },
                old(self).recv_wire(),
                old(thread)@,
                old(self).queues(),
                r,
                thread@,
                self.queues(),
            );
        }
        r
    }

    /// Completes a `recv` whose thread was woken up by a desynchronization.
    pub fn recv_after_wakeup(&mut self, thread: &mut ThreadState) -> (r: Step<
        Result<T, MpscRecvErrorDef>,
    >)
        requires
            old(self).wf(),
            old(thread)@.initialized || old(self).mode == RRMode::NoRR,
        ensures
            final(self).wf(),
            final(self).same_channel(*old(self)),
            desync_step(
                DesyncErrorView::DesynchronizedWakeup,
                old(self).recv_wire().direct,
                old(thread)@,
                old(self).queues(),
                r,
                final(thread)@,
                final(self).queues(),
            ),
            conserves(
                old(self).queues(),
                old(self).came(),
                step_message(r),
                final(self).came(),
                final(self).queues(),
            ),
    {
        let came = self.came.take().unwrap();
        let mut handle = Handle { receiver: &self.receiver, how: Blocking {  }, came };
        let r = handle_desync(
            thread,
            DesyncError::DesynchronizedWakeup,
            &mut handle,
            &mut self.buffer,
        );
        self.came = Some(handle.came);
        proof {
            lemma_desync_weaken(
                DesyncErrorView::DesynchronizedWakeup,
                end_recv(old(self).receiver),
                old(self).recv_wire().direct,
                old(thread)@,
                old(self).queues(),
                r,
                thread@,
                self.queues(),
            );
        }
        r
    }

    /// Receives a message if one is there.
    pub fn try_recv(&mut self, thread: &mut ThreadState) -> (r: Step<Result<T, MpscTryRecvErrorDef>>)
        requires
            old(self).wf(),
            old(thread)@.initialized || old(self).mode == RRMode::NoRR,
        ensures
            final(self).wf(),
            final(self).same_channel(*old(self)),
            recv_step(
                old(self).mode,
                old(self).metadata@,
                old(self).try_recv_wire(),
                old(thread)@,
                old(self).queues(),
                r,
                final(thread)@,
                final(self).queues(),
            ),
            step_takes(
                old(self).mode,
                old(thread)@.log.written,
                old(self).queues(),
                old(self).came(),
                r,
                final(thread)@.log.written,
                final(self).came(),
                final(self).queues(),
            ),
    {
        let came = self.came.take().unwrap();
        let mut handle = Handle { receiver: &self.receiver, how: Trying {  }, came };
        let r = receive(thread, self.mode, &self.metadata, &mut handle, &mut self.buffer);
        self.came = Some(handle.came);
        proof {
            lemma_recv_weaken(
                self.mode,
                self.metadata@,
                Wire {
                    direct: end_try_recv(old(self).receiver),
                    polled: end_poll(old(self).receiver),
                },
                old(self).try_recv_wire(),
                old(thread)@,
                old(self).queues(),
                r,
                thread@,
                self.queues(),
            );
        }
        r
    }

    /// Completes a `try_recv` whose thread was woken up by a desynchronization.
    pub fn try_recv_after_wakeup(&mut self, thread: &mut ThreadState) -> (r: Step<
        Result<T, MpscTryRecvErrorDef>,
    >)
        requires
            old(self).wf(),
            old(thread)@.initialized || old(self).mode == RRMode::NoRR,
        ensures
            final(self).wf(),
            final(self).same_channel(*old(self)),
            desync_step(
                DesyncErrorView::DesynchronizedWakeup,
                old(self).try_recv_wire().direct,
                old(thread)@,
                old(self).queues(),
                r,
                final(thread)@,
                final(self).queues(),
            ),
            conserves(
                old(self).queues(),
                old(self).came(),
                step_message(r),
                final(self).came(),
                final(self).queues(),
            ),
    {
        let came = self.came.take().unwrap();
        let mut handle = Handle { receiver: &self.receiver, how: Trying {  }, came };
        let r = handle_desync(
            thread,
            DesyncError::DesynchronizedWakeup,
            &mut handle,
            &mut self.buffer,
        );
        self.came = Some(handle.came);
        proof {
            lemma_desync_weaken(
                DesyncErrorView::DesynchronizedWakeup,
                end_try_recv(old(self).receiver),
                old(self).try_recv_wire().direct,
                old(thread)@,
                old(self).queues(),
                r,
                thread@,
                self.queues(),
            );
        }
        r
    }

    /// Receives a message, waiting no longer than `timeout`.
    pub fn recv_timeout(
        &mut self,
        thread: &mut ThreadState,
        timeout: Duration,
    ) -> (r: Step<Result<T, MpscRecvTimeoutErrorDef>>)
        requires
            old(self).wf(),
            old(thread)@.initialized || old(self).mode == RRMode::NoRR,
        ensures
            final(self).wf(),
            final(self).same_channel(*old(self)),
            recv_step(
                old(self).mode,
                old(self).metadata@,
                old(self).recv_timeout_wire(timeout),
                old(thread)@,
                old(self).queues(),
                r,
                final(thread)@,
                final(self).queues(),
            ),
            step_takes(
                old(self).mode,
                old(thread)@.log.written,
                old(self).queues(),
                old(self).came(),
                r,
                final(thread)@.log.written,
                final(self).came(),
                final(self).queues(),
            ),
    {
        let came = self.came.take().unwrap();
        let mut handle = Handle { receiver: &self.receiver, how: Within { timeout }, came };
        let r = receive(thread, self.mode, &self.metadata, &mut handle, &mut self.buffer);
        self.came = Some(handle.came);
        proof {
            lemma_recv_weaken(
                self.mode,
                self.metadata@,
                Wire {
                    direct: end_recv_timeout(old(self).receiver, timeout),
                    polled: end_poll(old(self).receiver),
                },
                old(self).recv_timeout_wire(timeout),
                old(thread)@,
                old(self).queues(),
                r,
                thread@,
                self.queues(),
            );
        }
        r
    }

    /// Completes a `recv_timeout` whose thread was woken up by a desynchronization.
    pub fn recv_timeout_after_wakeup(
        &mut self,
        thread: &mut ThreadState,
        timeout: Duration,
    ) -> (r: Step<Result<T, MpscRecvTimeoutErrorDef>>)
        requires
            old(self).wf(),
            old(thread)@.initialized || old(self).mode == RRMode::NoRR,
        ensures
            final(self).wf(),
            final(self).same_channel(*old(self)),
            desync_step(
                DesyncErrorView::DesynchronizedWakeup,
                old(self).recv_timeout_wire(timeout).direct,
                old(thread)@,
                old(self).queues(),
                r,
                final(thread)@,
                final(self).queues(),
            ),
            conserves(
                old(self).queues(),
                old(self).came(),
                step_message(r),
                final(self).came(),
                final(self).queues(),
            ),
    {
        let came = self.came.take().unwrap();
        let mut handle = Handle { receiver: &self.receiver, how: Within { timeout }, came };
        let r = handle_desync(
            thread,
            DesyncError::DesynchronizedWakeup,
            &mut handle,
            &mut self.buffer,
        );
        self.came = Some(handle.came);
        proof {
            lemma_desync_weaken(
                DesyncErrorView::DesynchronizedWakeup,
                end_recv_timeout(old(self).receiver, timeout),
                old(self).recv_timeout_wire(timeout).direct,
                old(thread)@,
                old(self).queues(),
                r,
                thread@,
                self.queues(),
            );
        }
        r
    }

    /// Receives a message from `sender`. Messages from others are kept.
    pub fn replay_recv(&mut self, sender: &DetThreadId) -> (r: Result<
        T,
        DesyncError,
    >)
        requires
            old(self).wf(),
        ensures
            final(self).wf(),
            final(self).same_channel(*old(self)),
            recv_expected(
                old(self).queues(),
                sender@,
                old(self).recv_wire().polled,
                result_view(r),
                final(self).queues(),
            ),
            waited(
                old(self).queues(),
                sender@,
                end_poll(old(self).receiver),
                old(self).came(),
                result_view(r),
                final(self).came(),
                final(self).queues(),
            ),
    {
        let came = self.came.take().unwrap();
        let mut handle = Handle { receiver: &self.receiver, how: Blocking {  }, came };
        let r = wait_for::<DetThreadId, T, MpscRecvErrorDef, Handle<T, Blocking>>(
            sender,
            &mut handle,
            &mut self.buffer,
        );
        self.came = Some(handle.came);
        proof {
            lemma_expected_weaken(
                old(self).queues(),
                sender@,
                end_poll(old(self).receiver),
                old(self).recv_wire().polled,
                result_view(r),
                self.queues(),
            );
        }
        r
    }
}

/// `ends` are the ends of a new channel of the given kind.
pub open spec fn is_new_channel<T>(
    thread: ThreadView,
    message_type: String,
    variant: ChannelVariant,
    ends: (Sender<T>, Receiver<T>),
) -> bool {
    let metadata = MetadataView {
        message_type: message_type@,
        channel_variant: variant,
        id: DetChannelId::next_view(thread),
    };
    &&& ends.0.metadata@ == metadata
    &&& ends.0.mode == thread.mode
    &&& ends.1.wf()
    &&& ends.1.queues() == Map::<Seq<u32>, Seq<T>>::empty()
    &&& ends.1.came() == Seq::<Option<DetMessage<T>>>::empty()
    &&& ends.1.mode == thread.mode
    &&& ends.1.metadata@ == metadata
}

/// A channel that holds at most `bound` messages. `message_type` names the type of its messages.
pub fn sync_channel<T>(thread: &mut ThreadState, bound: usize, message_type: String) -> (r: Result<
    (Sender<T>, Receiver<T>),
    DesyncError,
>)
    requires
        old(thread)@.initialized,
        fits::<DetMessage<T>>(bound),
    ensures
        created(old(thread)@, ChannelVariant::MpscBounded, message_type@, r, final(thread)@),
        r matches Ok(ends) ==> {
            &&& is_new_channel(old(thread)@, message_type, ChannelVariant::MpscBounded, ends)
            &&& match (ends.0.sender, ends.1.receiver) {
                (RealSender::Bounded(s), RealReceiver::Bounded(r)) => mpsc_sync_channel_gave(
                    bound,
                    (s, r),
                ),
                _ => false,
            }
        },
{
    let f = mpsc_sync_channel::<DetMessage<T>>;
    let (sender, receiver) = f(bound);
    let id = DetChannelId::new(thread);
    let metadata = RecordMetadata::new(
        message_type.clone(),
        ChannelVariant::MpscBounded,
        id.clone(),
    );
    match record_creation(thread, &metadata) {
        Ok(_) => Ok(
            (
                Sender { sender: RealSender::Bounded(sender), metadata, mode: thread.mode },
                Receiver::new(thread.mode, RealReceiver::Bounded(receiver), id, message_type),
            ),
        ),
        Err(e) => Err(e),
    }
}

/// A channel without a bound. `message_type` names the type of its messages.
pub fn channel<T>(thread: &mut ThreadState, message_type: String) -> (r: Result<
    (Sender<T>, Receiver<T>),
    DesyncError,
>)
    requires
        old(thread)@.initialized,
    ensures
        created(old(thread)@, ChannelVariant::MpscUnbounded, message_type@, r, final(thread)@),
        r matches Ok(ends) ==> {
            &&& is_new_channel(old(thread)@, message_type, ChannelVariant::MpscUnbounded, ends)
            &&& match (ends.0.sender, ends.1.receiver) {
                (RealSender::Unbounded(s), RealReceiver::Unbounded(r)) => mpsc_channel_gave((s, r)),
                _ => false,
            }
        },
{
    let f = mpsc_channel::<DetMessage<T>>;
    let (sender, receiver) = f();
    let id = DetChannelId::new(thread);
    let metadata = RecordMetadata::new(
        message_type.clone(),
        ChannelVariant::MpscUnbounded,
        id.clone(),
    );
    match record_creation(thread, &metadata) {
        Ok(_) => Ok(
            (
                Sender { sender: RealSender::Unbounded(sender), metadata, mode: thread.mode },
                Receiver::new(thread.mode, RealReceiver::Unbounded(receiver), id, message_type),
            ),
        ),
        Err(e) => Err(e),
    }
}

} // verus!
