//! Inter-process channels with a keyed log.
//!
//! The ends of the real channels are not held here: what they do is passed in as functions.

use vstd::prelude::*;
use std::marker::PhantomData;
use crate::ipc::{all_taken, calls_conserve, waits, RealChannel, TriedChannel};
use crate::keyed::channel::{after_channel, is_new_metadata};
use crate::keyed::flow::{
    entry_view, handle_desync, is_wait, keyed_desync, keyed_recv_step, keyed_step_message,
    keyed_takes, receive, tag_of, wait_for_sender, wait_view, Buffer, KeyedPoll, KeyedStep,
    KeyedWire, Message,
};
use crate::keyed::record_replay::{
    DesyncError, DesyncErrorView, DetChannelId, FlavorMarker, IpcDummyError, LogEntry,
    RecordMetadata, RecordedIndices,
};
use crate::keyed::send::{
    keyed_desync_send, keyed_send_step, send_message, send_on_desync, KeyedSendStep, KeyedSender,
};
use crate::keyed::thread::{ContextView, MaybeId, ThreadContext};
use crate::mode::RRMode;
use crate::rr::recv_expected;
use crate::source::{gives, lemma_waited, message, Direct};
use crate::thread_map::{contents, ThreadMap};
use crate::wire::{all_calls, Calls, Tap};

verus! {

/// Describes a new channel of the thread.
fn new_metadata(thread: &mut ThreadContext, message_type: String) -> (metadata: RecordMetadata)
    ensures
        final(thread)@ == after_channel(old(thread)@),
        is_new_metadata(old(thread)@, FlavorMarker::Ipc, message_type, metadata),
{
    let id = DetChannelId::new(thread);
    RecordMetadata { message_type, flavor: FlavorMarker::Ipc, mode: thread.mode, id }
}

/// The sending end of an inter-process channel.
pub struct IpcSender {
    pub metadata: RecordMetadata,
}

impl IpcSender {
    /// The library's side of a connection to a channel that is known by its name.
    pub fn connect(thread: &mut ThreadContext, message_type: String) -> (sender: IpcSender)
        ensures
            final(thread)@ == after_channel(old(thread)@),
            is_new_metadata(old(thread)@, FlavorMarker::Ipc, message_type, sender.metadata),
    {
        IpcSender { metadata: new_metadata(thread, message_type) }
    }

    /// Sends a message. The second part of the result is to be appended to the log.
    pub fn send<T, E, F: Fn(MaybeId, T) -> Result<(), E>>(
        &self,
        thread: &mut ThreadContext,
        indices: &RecordedIndices,
        data: T,
        underlying_send: &F,
    ) -> (out: (KeyedSendStep<T, E>, Option<LogEntry>))
        requires
            indices.wf(),
            old(thread)@.event_id < u32::MAX,
            forall|id: MaybeId| #[trigger] call_requires(*underlying_send, (id, data)),
        ensures
            keyed_send_step(
                KeyedSender::Ipc,
                self.metadata.mode,
                tag_of(self.metadata),
                indices@,
                |m: Message<T>, gave: Result<(), E>| call_ensures(*underlying_send, m, gave),
                old(thread)@,
                data,
                out.0,
                entry_view(out.1),
                final(thread)@,
            ),
    {
        send_message(thread, indices, KeyedSender::Ipc, data, &self.metadata, underlying_send)
    }

    /// Completes a `send` whose thread was woken up by a desynchronization.
    pub fn send_after_wakeup<T, E, F: Fn(MaybeId, T) -> Result<(), E>>(
        &self,
        thread: &mut ThreadContext,
        data: T,
        underlying_send: &F,
    ) -> (r: KeyedSendStep<T, E>)
        requires
            old(thread)@.event_id < u32::MAX,
            forall|id: MaybeId| #[trigger] call_requires(*underlying_send, (id, data)),
        ensures
            keyed_desync_send(
                DesyncErrorView::DesynchronizedWakeup,
                |m: Message<T>, gave: Result<(), E>| call_ensures(*underlying_send, m, gave),
                old(thread)@,
                data,
                r,
                final(thread)@,
            ),
    {
        send_on_desync(thread, DesyncError::DesynchronizedWakeup, data, underlying_send)
    }
}

/// What a wait on an inter-process channel may give.
pub open spec fn ipc_polls<T, G: Calls<Message<T>, IpcDummyError>>(
    real_try_recv: G,
) -> spec_fn(KeyedPoll<T>) -> bool {
    waits(gives(real_try_recv))
}

/// `keyed_takes` for what all calls of `first` and `second` took.
pub open spec fn calls_take<F, G, T>(
    first: F,
    second: G,
    mode: RRMode,
    thread: ContextView,
    queues: Map<Option<Seq<u32>>, Seq<T>>,
    handed: Option<T>,
    after: Map<Option<Seq<u32>>, Seq<T>>,
) -> bool {
    exists|came: Seq<Option<Message<T>>>|
        {
            &&& #[trigger] all_taken(first, second, came)
            &&& keyed_takes(
                mode,
                thread,
                queues,
                Seq::<Option<Message<T>>>::empty(),
                handed,
                came,
                after,
            )
        }
}

/// The receiving end of an inter-process channel.
pub struct IpcReceiver<T> {
    /// Messages that came before those that the replay had to wait for.
    pub buffer: Buffer<T>,
    pub metadata: RecordMetadata,
}

/// A receiver whose messages are not decoded.
pub struct OpaqueIpcReceiver<R> {
    pub opaque_receiver: R,
    pub metadata: RecordMetadata,
    /// The channel is known to be closed. Then it must not report this again.
    pub closed: bool,
}

impl<T> IpcReceiver<T> {
    pub open spec fn wf(self) -> bool {
        self.buffer.wf()
    }

    /// The messages that are kept, by sender.
    pub open spec fn queues(self) -> Map<Option<Seq<u32>>, Seq<T>> {
        contents(self.buffer)
    }

    pub fn new(metadata: RecordMetadata) -> (receiver: IpcReceiver<T>)
        ensures
            receiver.wf(),
            receiver.queues() == Map::<Option<Seq<u32>>, Seq<T>>::empty(),
            receiver.metadata == metadata,
    {
        let receiver = IpcReceiver { buffer: ThreadMap::new(), metadata };
        assert(receiver.queues() =~= Map::<Option<Seq<u32>>, Seq<T>>::empty());
        receiver
    }

    /// Receives a message from `sender`. Messages from others are kept.
    pub fn replay_recv<G: Calls<Message<T>, IpcDummyError>, S: Fn()>(
        &mut self,
        sender: &MaybeId,
        real_try_recv: G,
        pause: &S,
    ) -> (r: Result<T, DesyncError>)
        requires
            old(self).wf(),
            real_try_recv.ready(),
            call_requires(*pause, ()),
        ensures
            final(self).wf(),
            final(self).metadata == old(self).metadata,
            is_wait(r),
            recv_expected(
                old(self).queues(),
                sender@,
                ipc_polls(real_try_recv),
                wait_view(r),
                final(self).queues(),
            ),
            calls_conserve::<(), G, MaybeId, T>(
                (),
                real_try_recv,
                old(self).queues(),
                message(r),
                final(self).queues(),
            ),
    {
        let none: Ghost<Seq<Option<Message<T>>>> = Ghost(Seq::empty());
        let mut source = TriedChannel { tap: Tap::new((), real_try_recv), pause, came: none };
        let r = wait_for_sender::<T, IpcDummyError, TriedChannel<G, S, MaybeId, T>>(
            sender,
            &mut source,
            &mut self.buffer,
        );
        let ghost came = source.came@;
        let ghost all = source.tap;
        let close = Tap::<(), G, Message<T>>::close;
        let seen = close(source.tap);
        proof {
            lemma_waited(
                old(self).queues(),
                sender@,
                ipc_polls(real_try_recv),
                none@,
                wait_view(r),
                came,
                self.queues(),
            );
            assert(all_calls((), real_try_recv, seen@));
            assert(all_taken((), real_try_recv, came));
        }
        r
    }

    /// Receives a message: `real_recv` tells whether to wait for one. The second part of the result
    /// is to be appended to the log.
    pub fn recv<
        F: Calls<Message<T>, IpcDummyError>,
        G: Calls<Message<T>, IpcDummyError>,
        S: Fn(),
    >(
        &mut self,
        thread: &mut ThreadContext,
        indices: &RecordedIndices,
        real_recv: F,
        real_try_recv: G,
        pause: &S,
    ) -> (out: (KeyedStep<Result<T, IpcDummyError>>, Option<LogEntry>))
        requires
            old(self).wf(),
            indices.wf(),
            old(thread)@.event_id < u32::MAX,
            real_recv.ready(),
            real_try_recv.ready(),
            call_requires(*pause, ()),
        ensures
            final(self).wf(),
            final(self).metadata == old(self).metadata,
            keyed_recv_step(
                old(self).metadata.mode,
                tag_of(old(self).metadata),
                indices@,
                (KeyedWire { direct: gives(real_recv), polled: ipc_polls(real_try_recv) }),
                old(thread)@,
                old(self).queues(),
                out.0,
                entry_view(out.1),
                final(thread)@,
                final(self).queues(),
            ),
            calls_take(
                real_recv,
                real_try_recv,
                old(self).metadata.mode,
                old(thread)@,
                old(self).queues(),
                keyed_step_message(out.0),
                final(self).queues(),
            ),
    {
        let none: Ghost<Seq<Option<Message<T>>>> = Ghost(Seq::empty());
        let mut source = RealChannel {
            tap: Tap::new(real_recv, real_try_recv),
            pause,
            came: none,
            errors: PhantomData::<IpcDummyError>,
        };
        let out = receive(thread, indices, &self.metadata, &mut source, &mut self.buffer);
        let ghost came = source.came@;
        let ghost all = source.tap;
        let close = Tap::<F, G, Message<T>>::close;
        let seen = close(source.tap);
        assert(all_calls(real_recv, real_try_recv, seen@));
        assert(all_taken(real_recv, real_try_recv, came));
        out
    }

    /// Receives a message if one is there. The second part of the result is to be appended to the
    /// log.
    pub fn try_recv<G: Calls<Message<T>, IpcDummyError>, S: Fn()>(
        &mut self,
        thread: &mut ThreadContext,
        indices: &RecordedIndices,
        real_try_recv: G,
        pause: &S,
    ) -> (out: (KeyedStep<Result<T, IpcDummyError>>, Option<LogEntry>))
        requires
            old(self).wf(),
            indices.wf(),
            old(thread)@.event_id < u32::MAX,
            real_try_recv.ready(),
            call_requires(*pause, ()),
        ensures
            final(self).wf(),
            final(self).metadata == old(self).metadata,
            keyed_recv_step(
                old(self).metadata.mode,
                tag_of(old(self).metadata),
                indices@,
                (KeyedWire { direct: gives(real_try_recv), polled: ipc_polls(real_try_recv) }),
                old(thread)@,
                old(self).queues(),
                out.0,
                entry_view(out.1),
                final(thread)@,
                final(self).queues(),
            ),
            calls_take(
                (),
                real_try_recv,
                old(self).metadata.mode,
                old(thread)@,
                old(self).queues(),
                keyed_step_message(out.0),
                final(self).queues(),
            ),
    {
        let none: Ghost<Seq<Option<Message<T>>>> = Ghost(Seq::empty());
        let mut source = TriedChannel { tap: Tap::new((), real_try_recv), pause, came: none };
        let out = receive(thread, indices, &self.metadata, &mut source, &mut self.buffer);
        let ghost came = source.came@;
        let ghost all = source.tap;
        let close = Tap::<(), G, Message<T>>::close;
        let seen = close(source.tap);
        assert(all_calls((), real_try_recv, seen@));
        assert(all_taken((), real_try_recv, came));
        out
    }

    /// Completes a receive whose thread was woken up by a desynchronization.
    pub fn recv_after_wakeup<F: Calls<Message<T>, IpcDummyError>>(
        &mut self,
        thread: &mut ThreadContext,
        real_recv: F,
    ) -> (r: KeyedStep<Result<T, IpcDummyError>>)
        requires
            old(self).wf(),
            old(thread)@.event_id < u32::MAX,
            real_recv.ready(),
        ensures
            final(self).wf(),
            final(self).metadata == old(self).metadata,
            keyed_desync(
                DesyncErrorView::DesynchronizedWakeup,
                gives(real_recv),
                old(thread)@,
                old(self).queues(),
                r,
                final(thread)@,
                final(self).queues(),
            ),
            calls_conserve::<F, (), MaybeId, T>(
                real_recv,
                (),
                old(self).queues(),
                keyed_step_message(r),
                final(self).queues(),
            ),
    {
        let mut source = Direct { tap: Tap::new(real_recv, ()) };
        let r = handle_desync(
            thread,
            DesyncError::DesynchronizedWakeup,
            &mut source,
            &mut self.buffer,
        );
        let ghost all = source.tap;
        let close = Tap::<F, (), Message<T>>::close;
        let seen = close(source.tap);
        assert(all_calls(real_recv, (), seen@));
        assert(all_taken(real_recv, (), seen@));
        r
    }

    /// The same receiver for a receiver set. `receiver` is the end of the real channel.
    pub fn to_opaque<R>(self, receiver: R) -> (opaque: OpaqueIpcReceiver<R>)
        ensures
            opaque == (OpaqueIpcReceiver {
                opaque_receiver: receiver,
                metadata: self.metadata,
                closed: false,
            }),
    {
        OpaqueIpcReceiver { opaque_receiver: receiver, metadata: self.metadata, closed: false }
    }
}

/// The library's side of a new channel, once there is a real one.
pub fn channel<T>(thread: &mut ThreadContext, message_type: String) -> (ends: (
    IpcSender,
    IpcReceiver<T>,
))
    ensures
        final(thread)@ == after_channel(old(thread)@),
        is_new_metadata(old(thread)@, FlavorMarker::Ipc, message_type, ends.0.metadata),
        is_new_metadata(old(thread)@, FlavorMarker::Ipc, message_type, ends.1.metadata),
        ends.1.wf(),
        ends.1.queues() == Map::<Option<Seq<u32>>, Seq<T>>::empty(),
{
    let metadata = new_metadata(thread, message_type);
    let copy = RecordMetadata {
        message_type: metadata.message_type.clone(),
        flavor: metadata.flavor,
        mode: metadata.mode,
        id: metadata.id.clone(),
    };
    (IpcSender { metadata }, IpcReceiver::new(copy))
}

} // verus!
