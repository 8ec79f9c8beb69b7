//! Crossbeam channels with a keyed log.

use vstd::prelude::*;
use std::time::{Duration, Instant};
use crate::error::{RecvErrorDef, RecvErrorRR, RecvTimeoutErrorDef, SendError, TryRecvErrorDef};
use crate::crossbeam::{Blocking, Trying, Within};
use crate::keyed::flow::{
    entry_view, handle_desync, is_wait, keyed_desync, keyed_recv_step, keyed_step_message,
    keyed_takes, lemma_keyed_desync_weaken, lemma_keyed_weaken, receive, tag_of, wait_for_sender,
    wait_view, Buffer, KeyedPoll, KeyedStep, KeyedWire, Message,
};
use crate::keyed::record_replay::{
    ChannelIdView, DesyncError, DesyncErrorView, DetChannelId, FlavorMarker, LogEntry,
    RecordMetadata, RecordedIndices,
};
use crate::keyed::send::{
    keyed_desync_send, keyed_send_step, lemma_keyed_desync_send_weaken, lemma_keyed_send_weaken,
    send_message, send_on_desync, KeyedSendStep, KeyedSender,
};
use crate::keyed::thread::{get_det_id, ContextView, MaybeId, ThreadContext};
use crate::mode::RRMode;
use crate::rr::{lemma_expected_weaken, recv_expected};
use crate::source::{
    accounted_wait, conserves, lemma_idle_conserves, lemma_kept_again, lemma_waited, waited, Source,
};
use crate::thread_map::{all_empty, contents, keep, queue_of, took_some, ThreadMap};
use crate::wire::{
    crossbeam_after, crossbeam_after_gave, crossbeam_bounded, crossbeam_bounded_gave,
    crossbeam_clone, crossbeam_clone_gave, crossbeam_never, crossbeam_never_gave,
    crossbeam_recv_gave, crossbeam_recv_timeout_gave, crossbeam_send, crossbeam_send_gave,
    crossbeam_try_recv_gave, crossbeam_unbounded, crossbeam_unbounded_gave, fits, is_seconds,
    seconds, take_bare_recv, take_bare_recv_timeout, take_bare_try_recv, take_recv,
    take_recv_timeout, take_try_recv, Came, RealEnd,
};

verus! {

/// The sending end of a crossbeam channel.
#[verifier::reject_recursive_types(T)]
pub struct Sender<T> {
    pub sender: ::crossbeam_channel::Sender<Message<T>>,
    pub metadata: RecordMetadata,
}

/// What a send of a tagged message gives back to the sender, who knows nothing of the tag.
pub open spec fn send_result<T>(raw: Result<(), Message<T>>) -> Result<(), SendError<T>> {
    match raw {
        Ok(_) => Ok(()),
        Err((_, msg)) => Err(SendError(msg)),
    }
}

/// Describes a channel in the log.
fn clone_metadata(metadata: &RecordMetadata) -> (copy: RecordMetadata)
    ensures
        tag_of(copy) == tag_of(*metadata),
        copy.mode == metadata.mode,
{
    RecordMetadata {
        message_type: metadata.message_type.clone(),
        flavor: metadata.flavor,
        mode: metadata.mode,
        id: metadata.id.clone(),
    }
}

impl<T> Sender<T> {
    /// Handing `m` to the channel may give `gave`.
    pub open spec fn sends(self, m: Message<T>, gave: Result<(), SendError<T>>) -> bool {
        exists|raw: Result<(), Message<T>>| #[trigger]
            crossbeam_send_gave(self.sender, m, raw) && gave == send_result(raw)
    }

    /// Hands the message, tagged with the thread that sends it, to the channel.
    pub fn underlying_send(&self, thread_id: MaybeId, msg: T) -> (gave: Result<(), SendError<T>>)
        ensures
            self.sends((thread_id, msg), gave),
            gave matches Err(e) ==> e.0 == msg,
    {
        let send = crossbeam_send::<Message<T>>;
        let ghost m = (thread_id, msg);
        let raw = send(&self.sender, (thread_id, msg));
        assert(crossbeam_send_gave(self.sender, m, raw));
        match raw {
            Ok(_) => Ok(()),
            Err(back) => Err(SendError(back.1)),
        }
    }

    /// Sends a message. The second part of the result is to be appended to the log.
    pub fn send(&self, thread: &mut ThreadContext, indices: &RecordedIndices, msg: T) -> (out: (
        KeyedSendStep<T, SendError<T>>,
        Option<LogEntry>,
    ))
        requires
            indices.wf(),
            old(thread)@.event_id < u32::MAX,
        ensures
            keyed_send_step(
                KeyedSender::Crossbeam,
                self.metadata.mode,
                tag_of(self.metadata),
                indices@,
                |m: Message<T>, gave: Result<(), SendError<T>>| self.sends(m, gave),
                old(thread)@,
                msg,
                out.0,
                entry_view(out.1),
                final(thread)@,
            ),
    {
        let f = |thread_id: MaybeId, m: T| -> (gave: Result<(), SendError<T>>)
            ensures
                self.sends((thread_id, m), gave),
            { self.underlying_send(thread_id, m) };
        let out = send_message(thread, indices, KeyedSender::Crossbeam, msg, &self.metadata, &f);
        proof {
            lemma_keyed_send_weaken(
                KeyedSender::Crossbeam,
                self.metadata.mode,
                tag_of(self.metadata),
                indices@,
                |m: Message<T>, gave: Result<(), SendError<T>>| call_ensures(f, m, gave),
                |m: Message<T>, gave: Result<(), SendError<T>>| self.sends(m, gave),
                old(thread)@,
                msg,
                out.0,
                entry_view(out.1),
                thread@,
            );
        }
        out
    }

    /// Completes a `send` whose thread was woken up by a desynchronization.
    pub fn send_after_wakeup(&self, thread: &mut ThreadContext, msg: T) -> (r: KeyedSendStep<
        T,
        SendError<T>,
    >)
        requires
            old(thread)@.event_id < u32::MAX,
        ensures
            keyed_desync_send(
                DesyncErrorView::DesynchronizedWakeup,
                |m: Message<T>, gave: Result<(), SendError<T>>| self.sends(m, gave),
                old(thread)@,
                msg,
                r,
                final(thread)@,
            ),
    {
        let f = |thread_id: MaybeId, m: T| -> (gave: Result<(), SendError<T>>)
            ensures
                self.sends((thread_id, m), gave),
            { self.underlying_send(thread_id, m) };
        let r = send_on_desync(thread, DesyncError::DesynchronizedWakeup, msg, &f);
        proof {
            lemma_keyed_desync_send_weaken(
                DesyncErrorView::DesynchronizedWakeup,
                |m: Message<T>, gave: Result<(), SendError<T>>| call_ensures(f, m, gave),
                |m: Message<T>, gave: Result<(), SendError<T>>| self.sends(m, gave),
                old(thread)@,
                msg,
                r,
                thread@,
            );
        }
        r
    }
}

impl<T> Clone for Sender<T> {
    /// Another sending end of the same channel. The blocking of a bounded channel is not preserved
    /// with several senders.
    fn clone(&self) -> (copy: Sender<T>)
        ensures
            tag_of(copy.metadata) == tag_of(self.metadata),
            copy.metadata.mode == self.metadata.mode,
            crossbeam_clone_gave(self.sender, copy.sender),
    {
        let f = crossbeam_clone::<Message<T>>;
        Sender { sender: f(&self.sender), metadata: clone_metadata(&self.metadata) }
    }
}

/// Adds the thread's own id to a message that carries none.
pub open spec fn tagged<T, E>(
    det_id: Option<Seq<u32>>,
    raw: Result<T, E>,
    got: Result<Message<T>, E>,
) -> bool {
    match raw {
        Ok(msg) => match got {
            Ok((id, m)) => id@ == det_id && m == msg,
            Err(_) => false,
        },
        Err(e) => got == Err::<Message<T>, E>(e),
    }
}

/// Adds the thread's own id to a message that carries none.
pub fn tag<T, E>(det_id: &MaybeId, raw: Result<T, E>) -> (got: Result<Message<T>, E>)
    ensures
        tagged(det_id@, raw, got),
{
    match raw {
        Ok(msg) => Ok((det_id.clone(), msg)),
        Err(e) => Err(e),
    }
}

/// What an attempt to receive with a timeout gives as a poll.
pub open spec fn as_poll<T>(got: Result<Message<T>, RecvTimeoutErrorDef>) -> KeyedPoll<T> {
    match got {
        Ok(m) => Ok(m),
        Err(RecvTimeoutErrorDef::Timeout) => Err(RecvErrorRR::Timeout),
        Err(RecvTimeoutErrorDef::Disconnected) => Err(RecvErrorRR::Disconnected),
    }
}

/// The receiving ends of the kinds of crossbeam channels.
#[verifier::reject_recursive_types(T)]
pub enum Flavor<T> {
    After(::crossbeam_channel::Receiver<T>),
    Bounded(::crossbeam_channel::Receiver<Message<T>>),
    Never(::crossbeam_channel::Receiver<Message<T>>),
    Unbounded(::crossbeam_channel::Receiver<Message<T>>),
}

impl<T> Flavor<T> {
    /// The channel is always empty: it gives neither a message nor the news that it is disconnected.
    pub open spec fn is_silent(self) -> bool {
        &&& forall|det_id: Option<Seq<u32>>, got: Result<Message<T>, TryRecvErrorDef>| #[trigger]
            self.try_recv_gives(det_id, got) ==> got == Err::<Message<T>, TryRecvErrorDef>(
                TryRecvErrorDef::Empty,
            )
        &&& forall|
            det_id: Option<Seq<u32>>,
            duration: Duration,
            got: Result<Message<T>, RecvTimeoutErrorDef>,
        | #[trigger]
            self.recv_timeout_gives(det_id, duration, got) ==> got == Err::<
                Message<T>,
                RecvTimeoutErrorDef,
            >(RecvTimeoutErrorDef::Timeout)
    }

    /// The end itself, as its messages are tagged.
    pub open spec fn end(self) -> RealEnd<MaybeId, T> {
        match self {
            Flavor::After(receiver) => RealEnd::Bare(receiver),
            Flavor::Bounded(receiver) => RealEnd::Tagged(receiver),
            Flavor::Never(receiver) => RealEnd::Tagged(receiver),
            Flavor::Unbounded(receiver) => RealEnd::Tagged(receiver),
        }
    }

    /// Starts the record of what is received.
    fn start(self) -> (r: (Flavor<T>, Came<MaybeId, T>))
        ensures
            r.0 == self,
            r.1.end() == self.end(),
            r.1.seen() == Seq::<Option<Message<T>>>::empty(),
    {
        match self {
            Flavor::After(receiver) => {
                let (receiver, came) = Came::of_bare(receiver);
                (Flavor::After(receiver), came)
            },
            Flavor::Bounded(receiver) => {
                let (receiver, came) = Came::of_tagged(receiver);
                (Flavor::Bounded(receiver), came)
            },
            Flavor::Never(receiver) => {
                let (receiver, came) = Came::of_tagged(receiver);
                (Flavor::Never(receiver), came)
            },
            Flavor::Unbounded(receiver) => {
                let (receiver, came) = Came::of_tagged(receiver);
                (Flavor::Unbounded(receiver), came)
            },
        }
    }

    /// A blocking receive of the thread `det_id` may give `got`.
    pub open spec fn recv_gives(
        self,
        det_id: Option<Seq<u32>>,
        got: Result<Message<T>, RecvErrorDef>,
    ) -> bool {
        match self {
            Flavor::After(receiver) => exists|raw: Result<T, RecvErrorDef>| #[trigger]
                crossbeam_recv_gave(receiver, raw) && tagged(det_id, raw, got),
            Flavor::Bounded(receiver) => crossbeam_recv_gave(receiver, got),
            Flavor::Never(receiver) => crossbeam_recv_gave(receiver, got),
            Flavor::Unbounded(receiver) => crossbeam_recv_gave(receiver, got),
        }
    }

    pub fn recv(
        &self,
        det_id: &MaybeId,
        came: &mut Came<MaybeId, T>,
    ) -> (got: Result<Message<T>, RecvErrorDef>)
        requires
            old(came).end() == (*self).end(),
        ensures
            (*self).recv_gives(det_id@, got),
            final(came).follows(*old(came), got),
    {
        match self {
            Flavor::After(receiver) => take_bare_recv(receiver, det_id, came),
            Flavor::Bounded(receiver) | Flavor::Never(receiver) | Flavor::Unbounded(receiver) => {
                take_recv(receiver, came)
            },
        }
    }

    /// A receive that does not wait of the thread `det_id` may give `got`.
    pub open spec fn try_recv_gives(
        self,
        det_id: Option<Seq<u32>>,
        got: Result<Message<T>, TryRecvErrorDef>,
    ) -> bool {
        match self {
            Flavor::After(receiver) => exists|raw: Result<T, TryRecvErrorDef>| #[trigger]
                crossbeam_try_recv_gave(receiver, raw) && tagged(det_id, raw, got),
            Flavor::Bounded(receiver) => crossbeam_try_recv_gave(receiver, got),
            Flavor::Never(receiver) => crossbeam_try_recv_gave(receiver, got),
            Flavor::Unbounded(receiver) => crossbeam_try_recv_gave(receiver, got),
        }
    }

    pub fn try_recv(
        &self,
        det_id: &MaybeId,
        came: &mut Came<MaybeId, T>,
    ) -> (got: Result<Message<T>, TryRecvErrorDef>)
        requires
            old(came).end() == (*self).end(),
        ensures
            (*self).try_recv_gives(det_id@, got),
            final(came).follows(*old(came), got),
    {
        match self {
            Flavor::After(receiver) => take_bare_try_recv(receiver, det_id, came),
            Flavor::Bounded(receiver) | Flavor::Never(receiver) | Flavor::Unbounded(receiver) => {
                take_try_recv(receiver, came)
            },
        }
    }

    /// A receive that waits no longer than `duration` of the thread `det_id` may give `got`.
    pub open spec fn recv_timeout_gives(
        self,
        det_id: Option<Seq<u32>>,
        duration: Duration,
        got: Result<Message<T>, RecvTimeoutErrorDef>,
    ) -> bool {
        match self {
            Flavor::After(receiver) => exists|raw: Result<T, RecvTimeoutErrorDef>| #[trigger]
                crossbeam_recv_timeout_gave(receiver, duration, raw) && tagged(det_id, raw, got),
            Flavor::Bounded(receiver) => crossbeam_recv_timeout_gave(receiver, duration, got),
            Flavor::Never(receiver) => crossbeam_recv_timeout_gave(receiver, duration, got),
            Flavor::Unbounded(receiver) => crossbeam_recv_timeout_gave(receiver, duration, got),
        }
    }

    pub fn recv_timeout(
        &self,
        det_id: &MaybeId,
        duration: Duration,
        came: &mut Came<MaybeId, T>,
    ) -> (got: Result<Message<T>, RecvTimeoutErrorDef>)
        requires
            old(came).end() == (*self).end(),
        ensures
            (*self).recv_timeout_gives(det_id@, duration, got),
            final(came).follows(*old(came), got),
    {
        match self {
            Flavor::After(receiver) => take_bare_recv_timeout(receiver, det_id, duration, came),
            Flavor::Bounded(receiver) | Flavor::Never(receiver) | Flavor::Unbounded(receiver) => {
                take_recv_timeout(receiver, duration, came)
            },
        }
    }

    /// An attempt of the replaying thread `det_id` that waits no longer than `timeout` may give
    /// `poll`.
    pub open spec fn poll_gives(
        self,
        det_id: Option<Seq<u32>>,
        timeout: Duration,
        poll: KeyedPoll<T>,
    ) -> bool {
        exists|got: Result<Message<T>, RecvTimeoutErrorDef>|
            {
                &&& #[trigger] self.recv_timeout_gives(det_id, timeout, got)
                &&& poll == as_poll(got)
            }
    }

    /// An attempt of the replaying thread `det_id` that waits no longer than a second may give
    /// `poll`.
    pub open spec fn second_poll_gives(
        self,
        det_id: Option<Seq<u32>>,
        poll: KeyedPoll<T>,
    ) -> bool {
        exists|timeout: Duration|
            is_seconds(1, timeout) && #[trigger] self.poll_gives(det_id, timeout, poll)
    }

    /// One attempt of a replay to receive.
    fn rr_recv_timeout(
        &self,
        det_id: &MaybeId,
        timeout: Duration,
        came: &mut Came<MaybeId, T>,
    ) -> (poll: KeyedPoll<T>)
        requires
            old(came).end() == (*self).end(),
        ensures
            (*self).poll_gives(det_id@, timeout, poll),
            final(came).follows(*old(came), poll),
    {
        let got = self.recv_timeout(det_id, timeout, came);
        match got {
            Ok(m) => Ok(m),
            Err(e) => Err(RecvErrorRR::from(e)),
        }
    }

    /// One attempt of a replay to receive within a second.
    fn rr_try_recv(&self, det_id: &MaybeId, came: &mut Came<MaybeId, T>) -> (poll: KeyedPoll<T>)
        requires
            old(came).end() == (*self).end(),
        ensures
            (*self).second_poll_gives(det_id@, poll),
            final(came).follows(*old(came), poll),
    {
        let f = seconds;
        let timeout = f(1);
        let poll = self.rr_recv_timeout(det_id, timeout, came);
        assert(is_seconds(1, timeout));
        poll
    }
}

/// What a blocking receive on an end may give.
pub open spec fn end_recv<T>(end: Flavor<T>, det_id: Option<Seq<u32>>) -> spec_fn(
    Result<Message<T>, RecvErrorDef>,
) -> bool {
    |got: Result<Message<T>, RecvErrorDef>| end.recv_gives(det_id, got)
}

/// What a receive on an end that does not wait may give.
pub open spec fn end_try_recv<T>(end: Flavor<T>, det_id: Option<Seq<u32>>) -> spec_fn(
    Result<Message<T>, TryRecvErrorDef>,
) -> bool {
    |got: Result<Message<T>, TryRecvErrorDef>| end.try_recv_gives(det_id, got)
}

/// What a receive on an end with a timeout may give.
pub open spec fn end_recv_timeout<T>(
    end: Flavor<T>,
    det_id: Option<Seq<u32>>,
    timeout: Duration,
) -> spec_fn(Result<Message<T>, RecvTimeoutErrorDef>) -> bool {
    |got: Result<Message<T>, RecvTimeoutErrorDef>| end.recv_timeout_gives(det_id, timeout, got)
}

/// What an attempt of a replay that waits no longer than a second may give.
pub open spec fn end_second_poll<T>(end: Flavor<T>, det_id: Option<Seq<u32>>) -> spec_fn(
    KeyedPoll<T>,
) -> bool {
    |poll: KeyedPoll<T>| end.second_poll_gives(det_id, poll)
}

/// What an attempt of a replay that waits no longer than `timeout` may give.
pub open spec fn end_poll<T>(
    end: Flavor<T>,
    det_id: Option<Seq<u32>>,
    timeout: Duration,
) -> spec_fn(KeyedPoll<T>) -> bool {
    |poll: KeyedPoll<T>| end.poll_gives(det_id, timeout, poll)
}

/// An end in the hands of the thread `det_id`, with the record of what came. `R` tells how it
/// receives.
#[verifier::reject_recursive_types(T)]
pub struct Handle<'a, T, R> {
    pub end: &'a Flavor<T>,
    pub det_id: &'a MaybeId,
    pub how: R,
    pub came: Came<MaybeId, T>,
}

/// Waits no longer than this for each message of a replay.
pub struct PollWithin {
    pub timeout: Duration,
}

impl<'a, T> Source<MaybeId, T, RecvErrorDef> for Handle<'a, T, Blocking> {
    type End = RealEnd<MaybeId, T>;

    open spec fn end(&self) -> RealEnd<MaybeId, T> {
        self.came.end()
    }

    open spec fn direct(&self) -> spec_fn(Result<Message<T>, RecvErrorDef>) -> bool {
        end_recv(*self.end, self.det_id@)
    }

    open spec fn polled(&self) -> spec_fn(KeyedPoll<T>) -> bool {
        end_second_poll(*self.end, self.det_id@)
    }

    open spec fn came(&self) -> Seq<Option<Message<T>>> {
        self.came.seen()
    }

    open spec fn can_recv(&self) -> bool {
        self.came.end() == self.end.end()
    }

    open spec fn can_poll(&self) -> bool {
        self.came.end() == self.end.end()
    }

    fn recv(&mut self) -> (got: Result<Message<T>, RecvErrorDef>) {
        self.end.recv(self.det_id, &mut self.came)
    }

    fn poll(&mut self) -> (poll: KeyedPoll<T>) {
        self.end.rr_try_recv(self.det_id, &mut self.came)
    }
}

impl<'a, T> Source<MaybeId, T, TryRecvErrorDef> for Handle<'a, T, Trying> {
    type End = RealEnd<MaybeId, T>;

    open spec fn end(&self) -> RealEnd<MaybeId, T> {
        self.came.end()
    }

    open spec fn direct(&self) -> spec_fn(Result<Message<T>, TryRecvErrorDef>) -> bool {
        end_try_recv(*self.end, self.det_id@)
    }

    open spec fn polled(&self) -> spec_fn(KeyedPoll<T>) -> bool {
        end_second_poll(*self.end, self.det_id@)
    }

    open spec fn came(&self) -> Seq<Option<Message<T>>> {
        self.came.seen()
    }

    open spec fn can_recv(&self) -> bool {
        self.came.end() == self.end.end()
    }

    open spec fn can_poll(&self) -> bool {
        self.came.end() == self.end.end()
    }

    fn recv(&mut self) -> (got: Result<Message<T>, TryRecvErrorDef>) {
        self.end.try_recv(self.det_id, &mut self.came)
    }

    fn poll(&mut self) -> (poll: KeyedPoll<T>) {
        self.end.rr_try_recv(self.det_id, &mut self.came)
    }
}

impl<'a, T> Source<MaybeId, T, RecvTimeoutErrorDef> for Handle<'a, T, Within> {
    type End = RealEnd<MaybeId, T>;

    open spec fn end(&self) -> RealEnd<MaybeId, T> {
        self.came.end()
    }

    open spec fn direct(&self) -> spec_fn(Result<Message<T>, RecvTimeoutErrorDef>) -> bool {
        end_recv_timeout(*self.end, self.det_id@, self.how.timeout)
    }

    open spec fn polled(&self) -> spec_fn(KeyedPoll<T>) -> bool {
        end_second_poll(*self.end, self.det_id@)
    }

    open spec fn came(&self) -> Seq<Option<Message<T>>> {
        self.came.seen()
    }

    open spec fn can_recv(&self) -> bool {
        self.came.end() == self.end.end()
    }

    open spec fn can_poll(&self) -> bool {
        self.came.end() == self.end.end()
    }

    fn recv(&mut self) -> (got: Result<Message<T>, RecvTimeoutErrorDef>) {
        self.end.recv_timeout(self.det_id, self.how.timeout, &mut self.came)
    }

    fn poll(&mut self) -> (poll: KeyedPoll<T>) {
        self.end.rr_try_recv(self.det_id, &mut self.came)
    }
}

impl<'a, T> Source<MaybeId, T, RecvErrorDef> for Handle<'a, T, PollWithin> {
    type End = RealEnd<MaybeId, T>;

    open spec fn end(&self) -> RealEnd<MaybeId, T> {
        self.came.end()
    }

    open spec fn direct(&self) -> spec_fn(Result<Message<T>, RecvErrorDef>) -> bool {
        end_recv(*self.end, self.det_id@)
    }

    open spec fn polled(&self) -> spec_fn(KeyedPoll<T>) -> bool {
        end_poll(*self.end, self.det_id@, self.how.timeout)
    }

    open spec fn came(&self) -> Seq<Option<Message<T>>> {
        self.came.seen()
    }

    open spec fn can_recv(&self) -> bool {
        self.came.end() == self.end.end()
    }

    open spec fn can_poll(&self) -> bool {
        self.came.end() == self.end.end()
    }

    fn recv(&mut self) -> (got: Result<Message<T>, RecvErrorDef>) {
        self.end.recv(self.det_id, &mut self.came)
    }

    fn poll(&mut self) -> (poll: KeyedPoll<T>) {
        self.end.rr_recv_timeout(self.det_id, self.how.timeout, &mut self.came)
    }
}

/// The receiving end of a crossbeam channel.
#[verifier::reject_recursive_types(T)]
pub struct Receiver<T> {
    /// Messages that came before those that the replay had to wait for.
    pub buffer: Buffer<T>,
    pub receiver: Flavor<T>,
    pub metadata: RecordMetadata,
    /// The record of all that was received.
    pub came: Option<Came<MaybeId, T>>,
}

/// The flavor of a channel.
pub open spec fn marker<T>(receiver: Flavor<T>) -> FlavorMarker {
    match receiver {
        Flavor::Unbounded(_) => FlavorMarker::Unbounded,
        Flavor::After(_) => FlavorMarker::After,
        Flavor::Bounded(_) => FlavorMarker::Bounded,
        Flavor::Never(_) => FlavorMarker::Never,
    }
}

/// Whether there is a message from `sender`, found among those that are kept or by receiving.
pub open spec fn polled_entry<T>(
    queues: Map<Option<Seq<u32>>, Seq<T>>,
    sender: Option<Seq<u32>>,
    polled: spec_fn(KeyedPoll<T>) -> bool,
    r: Result<bool, DesyncError>,
    after: Map<Option<Seq<u32>>, Seq<T>>,
) -> bool {
    if queue_of(queues, sender).len() > 0 {
        r == Ok::<bool, DesyncError>(true) && after == queues
    } else {
        exists|found: Result<T, DesyncError>, mid: Map<Option<Seq<u32>>, Seq<T>>|
            {
                &&& is_wait(found)
                &&& #[trigger] recv_expected(queues, sender, polled, wait_view(found), mid)
                &&& match found {
                    Ok(msg) => r == Ok::<bool, DesyncError>(true) && after == keep(
                        mid,
                        sender,
                        msg,
                    ),
                    Err(DesyncError::Timedout) => r == Ok::<bool, DesyncError>(false) && after
                        == mid,
                    Err(e) => r == Err::<bool, DesyncError>(e) && after == mid,
                }
            }
    }
}

impl<T> Receiver<T> {
    pub open spec fn wf(self) -> bool {
        &&& self.buffer.wf()
        &&& self.came matches Some(came)
        &&& came.end() == self.receiver.end()
    }

    /// What each receive on the channel took off it, oldest first.
    pub open spec fn came(self) -> Seq<Option<Message<T>>> {
        self.came->0.seen()
    }

    /// The messages that are kept, by sender.
    pub open spec fn queues(self) -> Map<Option<Seq<u32>>, Seq<T>> {
        contents(self.buffer)
    }

    /// Both are the same end of the same channel, whatever they keep.
    pub open spec fn same_channel(self, other: Receiver<T>) -> bool {
        &&& self.receiver == other.receiver
        &&& self.metadata == other.metadata
    }

    /// What attempts of a replaying thread that wait no longer than `timeout` may give.
    pub open spec fn polls(self, thread: ContextView, timeout: Duration) -> spec_fn(
        KeyedPoll<T>,
    ) -> bool {
        |poll: KeyedPoll<T>| self.receiver.poll_gives(thread.det_id, timeout, poll)
    }

    /// What attempts of a replaying thread that wait no longer than a second may give.
    pub open spec fn second_polls(self, thread: ContextView) -> spec_fn(KeyedPoll<T>) -> bool {
        |poll: KeyedPoll<T>| self.receiver.second_poll_gives(thread.det_id, poll)
    }

    /// What a blocking receive of the thread may give.
    pub open spec fn recv_wire(self, thread: ContextView) -> KeyedWire<T, RecvErrorDef> {
        KeyedWire {
            direct: |got: Result<Message<T>, RecvErrorDef>|
                self.receiver.recv_gives(thread.det_id, got),
            polled: self.second_polls(thread),
        }
    }

    /// What a receive of the thread that does not wait may give.
    pub open spec fn try_recv_wire(self, thread: ContextView) -> KeyedWire<T, TryRecvErrorDef> {
        KeyedWire {
            direct: |got: Result<Message<T>, TryRecvErrorDef>|
                self.receiver.try_recv_gives(thread.det_id, got),
            polled: self.second_polls(thread),
        }
    }

    /// What a receive of the thread with a timeout may give.
    pub open spec fn recv_timeout_wire(self, thread: ContextView, timeout: Duration) -> KeyedWire<
        T,
        RecvTimeoutErrorDef,
    > {
        KeyedWire {
            direct: |got: Result<Message<T>, RecvTimeoutErrorDef>|
                self.receiver.recv_timeout_gives(thread.det_id, timeout, got),
            polled: self.second_polls(thread),
        }
    }

    pub fn new(
        real_receiver: Flavor<T>,
        mode: RRMode,
        id: DetChannelId,
        message_type: String,
    ) -> (receiver: Receiver<T>)
        ensures
            receiver.wf(),
            receiver.queues() == Map::<Option<Seq<u32>>, Seq<T>>::empty(),
            receiver.came() == Seq::<Option<Message<T>>>::empty(),
            receiver.receiver == real_receiver,
            receiver.metadata == (RecordMetadata {
                message_type,
                flavor: marker(real_receiver),
                mode,
                id,
            }),
    {
        let flavor = Receiver::get_marker(&real_receiver);
        let (real_receiver, came) = real_receiver.start();
        let receiver = Receiver {
            buffer: ThreadMap::new(),
            receiver: real_receiver,
            metadata: RecordMetadata { message_type, flavor, mode, id },
            came: Some(came),
        };
        assert(receiver.queues() =~= Map::<Option<Seq<u32>>, Seq<T>>::empty());
        receiver
    }

    pub fn get_marker(receiver: &Flavor<T>) -> (flavor: FlavorMarker)
        ensures
            flavor == marker(*receiver),
    {
        match receiver {
            Flavor::Unbounded(_) => FlavorMarker::Unbounded,
            Flavor::After(_) => FlavorMarker::After,
            Flavor::Bounded(_) => FlavorMarker::Bounded,
            Flavor::Never(_) => FlavorMarker::Never,
        }
    }

    pub fn flavor(&self) -> (flavor: FlavorMarker)
        ensures
            flavor == self.metadata.flavor,
    {
        self.metadata.flavor
    }

    pub fn metadata(&self) -> (metadata: &RecordMetadata)
        ensures
            *metadata == self.metadata,
    {
        &self.metadata
    }

    /// Receives a message, blocking until one comes. The second part of the result is to be
    /// appended to the log.
    pub fn recv(
        &mut self,
        thread: &mut ThreadContext,
        indices: &RecordedIndices,
    ) -> (out: (KeyedStep<Result<T, RecvErrorDef>>, Option<LogEntry>))
        requires
            old(self).wf(),
            indices.wf(),
            old(thread)@.event_id < u32::MAX,
        ensures
            final(self).wf(),
            final(self).same_channel(*old(self)),
            keyed_recv_step(
                old(self).metadata.mode,
                tag_of(old(self).metadata),
                indices@,
                old(self).recv_wire(old(thread)@),
                old(thread)@,
                old(self).queues(),
                out.0,
                entry_view(out.1),
                final(thread)@,
                final(self).queues(),
            ),
            keyed_takes(
                old(self).metadata.mode,
                old(thread)@,
                old(self).queues(),
                old(self).came(),
                keyed_step_message(out.0),
                final(self).came(),
                final(self).queues(),
            ),
    {
        let det_id = get_det_id(thread);
        let came = self.came.take().unwrap();
        let mut handle = Handle { end: &self.receiver, det_id: &det_id, how: Blocking {  }, came };
        let out = receive(thread, indices, &self.metadata, &mut handle, &mut self.buffer);
        self.came = Some(handle.came);
        proof {
            lemma_keyed_weaken(
                self.metadata.mode,
                tag_of(self.metadata),
                indices@,
                KeyedWire {
                    direct: end_recv(old(self).receiver, old(thread)@.det_id),
                    polled: end_second_poll(old(self).receiver, old(thread)@.det_id),
                },
                old(self).recv_wire(old(thread)@),
                old(thread)@,
                old(self).queues(),
                out.0,
                entry_view(out.1),
                thread@,
                self.queues(),
            );
        }
        out
    }

    /// Completes a `recv` whose thread was woken up by a desynchronization.
    pub fn recv_after_wakeup(&mut self, thread: &mut ThreadContext) -> (r: KeyedStep<
        Result<T, RecvErrorDef>,
    >)
        requires
            old(self).wf(),
            old(thread)@.event_id < u32::MAX,
        ensures
            final(self).wf(),
            final(self).same_channel(*old(self)),
            keyed_desync(
                DesyncErrorView::DesynchronizedWakeup,
                old(self).recv_wire(old(thread)@).direct,
                old(thread)@,
                old(self).queues(),
                r,
                final(thread)@,
                final(self).queues(),
            ),
            conserves(
                old(self).queues(),
                old(self).came(),
                keyed_step_message(r),
                final(self).came(),
                final(self).queues(),
            ),
    {
        let det_id = get_det_id(thread);
        let came = self.came.take().unwrap();
        let mut handle = Handle { end: &self.receiver, det_id: &det_id, how: Blocking {  }, came };
        let r = handle_desync(
            thread,
            DesyncError::DesynchronizedWakeup,
            &mut handle,
            &mut self.buffer,
        );
        self.came = Some(handle.came);
        proof {
            lemma_keyed_desync_weaken(
                DesyncErrorView::DesynchronizedWakeup,
                end_recv(old(self).receiver, old(thread)@.det_id),
                old(self).recv_wire(old(thread)@).direct,
                old(thread)@,
                old(self).queues(),
                r,
                thread@,
                self.queues(),
            );
        }
        r
    }

    /// Receives a message if one is there. The second part of the result is to be appended to the
    /// log.
    pub fn try_recv(
        &mut self,
        thread: &mut ThreadContext,
        indices: &RecordedIndices,
    ) -> (out: (KeyedStep<Result<T, TryRecvErrorDef>>, Option<LogEntry>))
        requires
            old(self).wf(),
            indices.wf(),
            old(thread)@.event_id < u32::MAX,
        ensures
            final(self).wf(),
            final(self).same_channel(*old(self)),
            keyed_recv_step(
                old(self).metadata.mode,
                tag_of(old(self).metadata),
                indices@,
                old(self).try_recv_wire(old(thread)@),
                old(thread)@,
                old(self).queues(),
                out.0,
                entry_view(out.1),
                final(thread)@,
                final(self).queues(),
            ),
            keyed_takes(
                old(self).metadata.mode,
                old(thread)@,
                old(self).queues(),
                old(self).came(),
                keyed_step_message(out.0),
                final(self).came(),
                final(self).queues(),
            ),
    {
        let det_id = get_det_id(thread);
        let came = self.came.take().unwrap();
        let mut handle = Handle { end: &self.receiver, det_id: &det_id, how: Trying {  }, came };
        let out = receive(thread, indices, &self.metadata, &mut handle, &mut self.buffer);
        self.came = Some(handle.came);
        proof {
            lemma_keyed_weaken(
                self.metadata.mode,
                tag_of(self.metadata),
                indices@,
                KeyedWire {
                    direct: end_try_recv(old(self).receiver, old(thread)@.det_id),
                    polled: end_second_poll(old(self).receiver, old(thread)@.det_id),
                },
                old(self).try_recv_wire(old(thread)@),
                old(thread)@,
                old(self).queues(),
                out.0,
                entry_view(out.1),
                thread@,
                self.queues(),
            );
        }
        out
    }

    /// Completes a `try_recv` whose thread was woken up by a desynchronization.
    pub fn try_recv_after_wakeup(&mut self, thread: &mut ThreadContext) -> (r: KeyedStep<
        Result<T, TryRecvErrorDef>,
    >)
        requires
            old(self).wf(),
            old(thread)@.event_id < u32::MAX,
        ensures
            final(self).wf(),
            final(self).same_channel(*old(self)),
            keyed_desync(
                DesyncErrorView::DesynchronizedWakeup,
                old(self).try_recv_wire(old(thread)@).direct,
                old(thread)@,
                old(self).queues(),
                r,
                final(thread)@,
                final(self).queues(),
            ),
            conserves(
                old(self).queues(),
                old(self).came(),
                keyed_step_message(r),
                final(self).came(),
                final(self).queues(),
            ),
    {
        let det_id = get_det_id(thread);
        let came = self.came.take().unwrap();
        let mut handle = Handle { end: &self.receiver, det_id: &det_id, how: Trying {  }, came };
        let r = handle_desync(
            thread,
            DesyncError::DesynchronizedWakeup,
            &mut handle,
            &mut self.buffer,
        );
        self.came = Some(handle.came);
        proof {
            lemma_keyed_desync_weaken(
                DesyncErrorView::DesynchronizedWakeup,
                end_try_recv(old(self).receiver, old(thread)@.det_id),
                old(self).try_recv_wire(old(thread)@).direct,
                old(thread)@,
                old(self).queues(),
                r,
                thread@,
                self.queues(),
            );
        }
        r
    }

    /// Receives a message, waiting no longer than `timeout`. The second part of the result is to be
    /// appended to the log.
    pub fn recv_timeout(
        &mut self,
        thread: &mut ThreadContext,
        indices: &RecordedIndices,
        timeout: Duration,
    ) -> (out: (KeyedStep<Result<T, RecvTimeoutErrorDef>>, Option<LogEntry>))
        requires
            old(self).wf(),
            indices.wf(),
            old(thread)@.event_id < u32::MAX,
        ensures
            final(self).wf(),
            final(self).same_channel(*old(self)),
            keyed_recv_step(
                old(self).metadata.mode,
                tag_of(old(self).metadata),
                indices@,
                old(self).recv_timeout_wire(old(thread)@, timeout),
                old(thread)@,
                old(self).queues(),
                out.0,
                entry_view(out.1),
                final(thread)@,
                final(self).queues(),
            ),
            keyed_takes(
                old(self).metadata.mode,
                old(thread)@,
                old(self).queues(),
                old(self).came(),
                keyed_step_message(out.0),
                final(self).came(),
                final(self).queues(),
            ),
    {
        let det_id = get_det_id(thread);
        let came = self.came.take().unwrap();
        let mut handle = Handle {
            end: &self.receiver,
            det_id: &det_id,
            how: Within { timeout },
            came,
        };
        let out = receive(thread, indices, &self.metadata, &mut handle, &mut self.buffer);
        self.came = Some(handle.came);
        proof {
            lemma_keyed_weaken(
                self.metadata.mode,
                tag_of(self.metadata),
                indices@,
                KeyedWire {
                    direct: end_recv_timeout(old(self).receiver, old(thread)@.det_id, timeout),
                    polled: end_second_poll(old(self).receiver, old(thread)@.det_id),
                },
                old(self).recv_timeout_wire(old(thread)@, timeout),
                old(thread)@,
                old(self).queues(),
                out.0,
                entry_view(out.1),
                thread@,
                self.queues(),
            );
        }
        out
    }

    /// Completes a `recv_timeout` whose thread was woken up by a desynchronization.
    pub fn recv_timeout_after_wakeup(&mut self, thread: &mut ThreadContext, timeout: Duration) -> (r: KeyedStep<
        Result<T, RecvTimeoutErrorDef>,
    >)
        requires
            old(self).wf(),
            old(thread)@.event_id < u32::MAX,
        ensures
            final(self).wf(),
            final(self).same_channel(*old(self)),
            keyed_desync(
                DesyncErrorView::DesynchronizedWakeup,
                old(self).recv_timeout_wire(old(thread)@, timeout).direct,
                old(thread)@,
                old(self).queues(),
                r,
                final(thread)@,
                final(self).queues(),
            ),
            conserves(
                old(self).queues(),
                old(self).came(),
                keyed_step_message(r),
                final(self).came(),
                final(self).queues(),
            ),
    {
        let det_id = get_det_id(thread);
        let came = self.came.take().unwrap();
        let mut handle = Handle {
            end: &self.receiver,
            det_id: &det_id,
            how: Within { timeout },
            came,
        };
        let r = handle_desync(
            thread,
            DesyncError::DesynchronizedWakeup,
            &mut handle,
            &mut self.buffer,
        );
        self.came = Some(handle.came);
        proof {
            lemma_keyed_desync_weaken(
                DesyncErrorView::DesynchronizedWakeup,
                end_recv_timeout(old(self).receiver, old(thread)@.det_id, timeout),
                old(self).recv_timeout_wire(old(thread)@, timeout).direct,
                old(thread)@,
                old(self).queues(),
                r,
                thread@,
                self.queues(),
            );
        }
        r
    }

    /// Receives a message from `sender`, waiting no longer than `timeout` for each message.
    /// Messages from others are kept.
    pub fn replay_recv_timeout(
        &mut self,
        thread: &ThreadContext,
        sender: &MaybeId,
        timeout: Duration,
    ) -> (r: Result<T, DesyncError>)
        requires
            old(self).wf(),
        ensures
            final(self).wf(),
            final(self).same_channel(*old(self)),
            is_wait(r),
            recv_expected(
                old(self).queues(),
                sender@,
                old(self).polls(thread@, timeout),
                wait_view(r),
                final(self).queues(),
            ),
            waited(
                old(self).queues(),
                sender@,
                end_poll(old(self).receiver, thread@.det_id, timeout),
                old(self).came(),
                wait_view(r),
                final(self).came(),
                final(self).queues(),
            ),
    {
        let det_id = get_det_id(thread);
        let came = self.came.take().unwrap();
        let mut handle = Handle {
            end: &self.receiver,
            det_id: &det_id,
            how: PollWithin { timeout },
            came,
        };
        let r = wait_for_sender::<T, RecvErrorDef, Handle<T, PollWithin>>(
            sender,
            &mut handle,
            &mut self.buffer,
        );
        self.came = Some(handle.came);
        proof {
            lemma_expected_weaken::<MaybeId, T>(
                old(self).queues(),
                sender@,
                end_poll(old(self).receiver, thread@.det_id, timeout),
                old(self).polls(thread@, timeout),
                wait_view(r),
                self.queues(),
            );
        }
        r
    }

    /// Receives a message from `sender`, waiting no longer than a second for each message.
    pub fn replay_recv(&mut self, thread: &ThreadContext, sender: &MaybeId) -> (r: Result<
        T,
        DesyncError,
    >)
        requires
            old(self).wf(),
        ensures
            final(self).wf(),
            final(self).same_channel(*old(self)),
            is_wait(r),
            recv_expected(
                old(self).queues(),
                sender@,
                old(self).second_polls(thread@),
                wait_view(r),
                final(self).queues(),
            ),
            accounted_wait(
                old(self).queues(),
                sender@,
                old(self).came(),
                wait_view(r),
                final(self).came(),
                final(self).queues(),
            ),
    {
        let f = seconds;
        let timeout = f(1);
        let r = self.replay_recv_timeout(thread, sender, timeout);
        proof {
            assert(is_seconds(1, timeout));
            lemma_waited(
                old(self).queues(),
                sender@,
                end_poll(old(self).receiver, thread@.det_id, timeout),
                old(self).came(),
                wait_view(r),
                self.came(),
                self.queues(),
            );
            lemma_expected_weaken::<MaybeId, T>(
                old(self).queues(),
                sender@,
                old(self).polls(thread@, timeout),
                old(self).second_polls(thread@),
                wait_view(r),
                self.queues(),
            );
        }
        r
    }

    /// Takes any message that was kept.
    pub fn get_buffered_value(&mut self) -> (msg: Option<T>)
        requires
            old(self).wf(),
        ensures
            final(self).wf(),
            final(self).same_channel(*old(self)),
            final(self).came() == old(self).came(),
            match msg {
                Some(m) => took_some(old(self).queues(), m, final(self).queues()),
                None => all_empty(old(self).queues()) && final(self).queues()
                    == old(self).queues(),
            },
    {
        self.buffer.pop_any_message()
    }

    /// Whether there is a message from `sender`, waiting no longer than `timeout` for each message. A
    /// message that has to be taken off the channel to find out is kept. Fails if the channel is
    /// disconnected.
    pub fn poll_entry(
        &mut self,
        thread: &ThreadContext,
        sender: &MaybeId,
        timeout: Duration,
    ) -> (r: Result<bool, DesyncError>)
        requires
            old(self).wf(),
        ensures
            final(self).wf(),
            final(self).same_channel(*old(self)),
            polled_entry(
                old(self).queues(),
                sender@,
                old(self).polls(thread@, timeout),
                r,
                final(self).queues(),
            ),
            conserves(
                old(self).queues(),
                old(self).came(),
                None,
                final(self).came(),
                final(self).queues(),
            ),
    {
        if self.buffer.has_message(sender) {
            proof {
                lemma_idle_conserves::<MaybeId, T>(self.queues(), self.came());
            }
            return Ok(true);
        }
        let found = self.replay_recv_timeout(thread, sender, timeout);
        let ghost seen = found;
        let ghost mid = self.queues();
        assert(recv_expected(
            old(self).queues(),
            sender@,
            old(self).polls(thread@, timeout),
            wait_view(seen),
            mid,
        ));
        proof {
            lemma_waited(
                old(self).queues(),
                sender@,
                end_poll(old(self).receiver, thread@.det_id, timeout),
                old(self).came(),
                wait_view(seen),
                self.came(),
                mid,
            );
            if let Ok(msg) = seen {
                lemma_kept_again(
                    old(self).queues(),
                    sender@,
                    end_poll(old(self).receiver, thread@.det_id, timeout),
                    old(self).came(),
                    msg,
                    self.came(),
                    mid,
                );
            }
        }
        match found {
            Ok(msg) => {
                self.buffer.push_message(sender.clone(), msg);
                Ok(true)
            },
            Err(DesyncError::Timedout) => Ok(false),
            Err(e) => Err(e),
        }
    }
}

/// The id of the next channel that the thread creates.
pub open spec fn next_channel(thread: ContextView) -> ChannelIdView {
    ChannelIdView { thread: thread.det_id, channel: thread.channel_id }
}

/// The thread once it has created one more channel.
pub open spec fn after_channel(thread: ContextView) -> ContextView {
    ContextView { channel_id: ((thread.channel_id + 1) % 0x1_0000_0000) as u32, ..thread }
}

/// `metadata` describes a new channel of the thread.
pub open spec fn is_new_metadata(
    thread: ContextView,
    flavor: FlavorMarker,
    message_type: String,
    metadata: RecordMetadata,
) -> bool {
    &&& metadata.mode == thread.mode
    &&& metadata.flavor == flavor
    &&& metadata.id@ == next_channel(thread)
    &&& metadata.message_type@ == message_type@
}

/// A receiver that delivers the time once `duration` has passed.
pub fn after(thread: &mut ThreadContext, duration: Duration, message_type: String) -> (receiver:
    Receiver<Instant>)
    ensures
        final(thread)@ == after_channel(old(thread)@),
        is_new_metadata(old(thread)@, FlavorMarker::After, message_type, receiver.metadata),
        receiver.wf(),
        receiver.queues() == Map::<Option<Seq<u32>>, Seq<Instant>>::empty(),
        receiver.came() == Seq::<Option<Message<Instant>>>::empty(),
        match receiver.receiver {
            Flavor::After(inner) => crossbeam_after_gave(duration, inner),
            _ => false,
        },
{
    let id = DetChannelId::new(thread);
    let f = crossbeam_after;
    Receiver::new(Flavor::After(f(duration)), thread.mode, id, message_type)
}

/// A channel without a bound.
pub fn unbounded<T>(thread: &mut ThreadContext, message_type: String) -> (ends: (
    Sender<T>,
    Receiver<T>,
))
    ensures
        final(thread)@ == after_channel(old(thread)@),
        is_new_metadata(old(thread)@, FlavorMarker::Unbounded, message_type, ends.0.metadata),
        is_new_metadata(old(thread)@, FlavorMarker::Unbounded, message_type, ends.1.metadata),
        ends.1.wf(),
        ends.1.queues() == Map::<Option<Seq<u32>>, Seq<T>>::empty(),
        ends.1.came() == Seq::<Option<Message<T>>>::empty(),
        match ends.1.receiver {
            Flavor::Unbounded(inner) => crossbeam_unbounded_gave((ends.0.sender, inner)),
            _ => false,
        },
{
    let f = crossbeam_unbounded::<Message<T>>;
    let (sender, receiver) = f();
    let id = DetChannelId::new(thread);
    let receiver = Receiver::new(Flavor::Unbounded(receiver), thread.mode, id, message_type);
    (Sender { sender, metadata: clone_metadata(&receiver.metadata) }, receiver)
}

/// A channel that holds at most `cap` messages.
pub fn bounded<T>(thread: &mut ThreadContext, cap: usize, message_type: String) -> (ends: (
    Sender<T>,
    Receiver<T>,
))
    requires
        fits::<Message<T>>(cap),
    ensures
        final(thread)@ == after_channel(old(thread)@),
        is_new_metadata(old(thread)@, FlavorMarker::Bounded, message_type, ends.0.metadata),
        is_new_metadata(old(thread)@, FlavorMarker::Bounded, message_type, ends.1.metadata),
        ends.1.wf(),
        ends.1.queues() == Map::<Option<Seq<u32>>, Seq<T>>::empty(),
        ends.1.came() == Seq::<Option<Message<T>>>::empty(),
        match ends.1.receiver {
            Flavor::Bounded(inner) => crossbeam_bounded_gave(cap, (ends.0.sender, inner)),
            _ => false,
        },
{
    let f = crossbeam_bounded::<Message<T>>;
    let (sender, receiver) = f(cap);
    let id = DetChannelId::new(thread);
    let receiver = Receiver::new(Flavor::Bounded(receiver), thread.mode, id, message_type);
    (Sender { sender, metadata: clone_metadata(&receiver.metadata) }, receiver)
}

/// A receiver that never delivers a message.
pub fn never<T>(thread: &mut ThreadContext, message_type: String) -> (receiver: Receiver<T>)
    ensures
        final(thread)@ == after_channel(old(thread)@),
        is_new_metadata(old(thread)@, FlavorMarker::Never, message_type, receiver.metadata),
        receiver.receiver.is_silent(),
        receiver.wf(),
        receiver.queues() == Map::<Option<Seq<u32>>, Seq<T>>::empty(),
        receiver.came() == Seq::<Option<Message<T>>>::empty(),
        match receiver.receiver {
            Flavor::Never(inner) => crossbeam_never_gave(inner),
            _ => false,
        },
{
    let id = DetChannelId::new(thread);
    let f = crossbeam_never::<Message<T>>;
    Receiver::new(Flavor::Never(f()), thread.mode, id, message_type)
}

} // verus!
