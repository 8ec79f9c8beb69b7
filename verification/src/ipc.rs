//! Record and replay for inter-process channels.
//!
//! The ends of the real channels are not held here: what they do is passed in as functions.

use vstd::prelude::*;
use std::marker::PhantomData;
use crate::desync::{desync_step, handle_desync, DetMessage, Step};
use crate::detthread::{DetThreadId, ThreadState};
use crate::error::{result_view, DesyncError, DesyncErrorView, RecvErrorRR};
use crate::mode::RRMode;
use crate::recordlog::{ChannelVariant, EntryView, IpcErrorVariants, RecordMetadata};
use crate::recv_events::IpcTryRecvError;
use crate::rr::{receive, recv_expected, recv_step, wait_for, DetChannelId, Poll, PollOf, Wire};
use crate::send::{desync_send, send_message, send_on_desync, send_step, SendStep, SenderKind};
use crate::source::{
    conserves, gives, lemma_took_last, lemma_waited, message, nothing, same_messages, step_message,
    step_takes, took_last, Direct, Source,
};
use crate::thread_map::{contents, BufferedValues, ThreadMap};
use crate::tivo::{created, next_metadata, record_creation};
use crate::wire::{all_calls, took, Calls, Tap};

verus! {

/// A wait consists of at most this many attempts, with a pause after each that fails.
pub const ATTEMPTS: usize = 10;

/// The sending end of an inter-process channel.
#[derive(Debug)]
pub struct IpcSender {
    pub metadata: RecordMetadata,
    pub mode: RRMode,
}

impl IpcSender {
    pub fn new(metadata: RecordMetadata, mode: RRMode) -> (sender: IpcSender)
        ensures
            sender == (IpcSender { metadata, mode }),
    {
        IpcSender { metadata, mode }
    }

    /// Another sending end of the same channel. It works in the mode of the thread.
    pub fn clone(&self, thread: &ThreadState) -> (copy: IpcSender)
        ensures
            copy.metadata@ == self.metadata@,
            copy.mode == thread@.mode,
    {
        IpcSender { metadata: self.metadata.clone(), mode: thread.mode }
    }

    /// Sends a message, tagged with the thread that sends it.
    pub fn send<T, E, F: Fn(DetThreadId, T) -> Result<(), E>>(
        &self,
        thread: &mut ThreadState,
        data: T,
        underlying_send: &F,
    ) -> (r: SendStep<T, E>)
        requires
            old(thread)@.initialized,
            forall|id: DetThreadId| #[trigger] call_requires(*underlying_send, (id, data)),
        ensures
            send_step(
                SenderKind::Ipc,
                self.mode,
                self.metadata@,
                |m: DetMessage<T>, gave: Result<(), E>| call_ensures(*underlying_send, m, gave),
                old(thread)@,
                data,
                r,
                final(thread)@,
            ),
    {
        send_message(thread, SenderKind::Ipc, data, self.mode, &self.metadata, underlying_send)
    }

    /// Completes a `send` whose thread was woken up by a desynchronization.
    pub fn send_after_wakeup<T, E, F: Fn(DetThreadId, T) -> Result<(), E>>(
        &self,
        thread: &mut ThreadState,
        data: T,
        underlying_send: &F,
    ) -> (r: SendStep<T, E>)
        requires
            old(thread)@.initialized,
            forall|id: DetThreadId| #[trigger] call_requires(*underlying_send, (id, data)),
        ensures
            desync_send(
                DesyncErrorView::DesynchronizedWakeup,
                |m: DetMessage<T>, gave: Result<(), E>| call_ensures(*underlying_send, m, gave),
                old(thread)@,
                data,
                r,
                final(thread)@,
            ),
    {
        send_on_desync(thread, DesyncError::DesynchronizedWakeup, data, underlying_send)
    }
}

/// What a wait that consists of `attempts` gives: the message of the last one, or a timeout once
/// there were enough of them. All others failed.
pub open spec fn waited<T, E>(attempts: Seq<Result<T, E>>, r: Result<T, RecvErrorRR>) -> bool {
    &&& 0 < attempts.len() <= ATTEMPTS
    &&& forall|i: int| 0 <= i < attempts.len() - 1 ==> (#[trigger] attempts[i]) is Err
    &&& match attempts.last() {
        Ok(v) => r == Ok::<T, RecvErrorRR>(v),
        Err(_) => attempts.len() == ATTEMPTS && r == Err::<T, RecvErrorRR>(RecvErrorRR::Timeout),
    }
}

/// A wait whose attempts are allowed by `tries` may give `poll`.
pub open spec fn wait_gives<M, E>(
    tries: spec_fn(Result<M, E>) -> bool,
    poll: Result<M, RecvErrorRR>,
) -> bool {
    exists|attempts: Seq<Result<M, E>>|
        {
            &&& #[trigger] waited(attempts, poll)
            &&& forall|i: int| 0 <= i < attempts.len() ==> tries(#[trigger] attempts[i])
        }
}

/// Such a wait pauses after every attempt that failed.
pub open spec fn paused_wait_gives<M, E>(
    tries: spec_fn(Result<M, E>) -> bool,
    pauses: bool,
    poll: Result<M, RecvErrorRR>,
) -> bool {
    exists|attempts: Seq<Result<M, E>>|
        {
            &&& #[trigger] waited(attempts, poll)
            &&& forall|i: int| 0 <= i < attempts.len() ==> tries(#[trigger] attempts[i])
            &&& attempts[0] is Err ==> pauses
        }
}

/// Makes attempts with the second of the two until a message comes, but not for ever. Pauses after
/// every attempt that failed.
pub fn attempt<M, E, F, G: Calls<M, E>, S: Fn()>(tap: &mut Tap<F, G, M>, pause: &S) -> (poll: Result<
    M,
    RecvErrorRR,
>)
    requires
        old(tap).second().ready(),
        call_requires(*pause, ()),
    ensures
        final(tap).first() == old(tap).first(),
        final(tap).second() == old(tap).second(),
        took_last(old(tap).seen(), took(poll), final(tap).seen()),
        wait_gives(gives::<M, E, G>(old(tap).second()), poll),
        paused_wait_gives(
            gives::<M, E, G>(old(tap).second()),
            call_ensures(*pause, (), ()),
            poll,
        ),
{
    let ghost mut attempts: Seq<Result<M, E>> = Seq::empty();
    let ghost tries = gives::<M, E, G>(tap.second());
    proof {
        assert(tap.seen() + nothing::<M>(0) =~= tap.seen());
    }
    let mut i: usize = 0;
    while i < ATTEMPTS
        invariant
            i <= ATTEMPTS,
            attempts.len() == i,
            tap.first() == old(tap).first(),
            tap.second() == old(tap).second(),
            tries == gives::<M, E, G>(tap.second()),
            tap.seen() == old(tap).seen() + nothing::<M>(i as nat),
            tap.second().ready(),
            call_requires(*pause, ()),
            i > 0 ==> call_ensures(*pause, (), ()),
            forall|j: int|
                0 <= j < i ==> {
                    &&& (#[trigger] attempts[j]) is Err
                    &&& tries(attempts[j])
                },
        decreases ATTEMPTS - i,
    {
        let got = tap.call_second::<E>();
        proof {
            attempts = attempts.push(got);
        }
        match got {
            Ok(v) => {
                assert(attempts.last() == got);
                assert(waited(attempts, Ok::<M, RecvErrorRR>(v)));
                return Ok(v);
            },
            Err(_) => {
                assert(tap.seen() =~= old(tap).seen() + nothing::<M>((i + 1) as nat));
                pause();
            },
        }
        i += 1;
    }
    assert(attempts[9] is Err);
    assert(waited(attempts, Err::<M, RecvErrorRR>(RecvErrorRR::Timeout)));
    assert(tap.seen() =~= (old(tap).seen() + nothing::<M>(9)).push(None));
    Err(RecvErrorRR::Timeout)
}

/// Of all calls of `try_recv` only the last one may take a message, which is what the wait gives.
pub open spec fn calls_taken<M, F>(try_recv: F, poll: Result<M, RecvErrorRR>) -> bool {
    exists|seen: Seq<Option<M>>|
        {
            &&& #[trigger] all_calls((), try_recv, seen)
            &&& took_last(Seq::<Option<M>>::empty(), took(poll), seen)
        }
}

/// Tries to receive until a message comes, but not for ever. Pauses after every attempt that failed.
pub fn rr_try_recv<M, E, F: Calls<M, E>, S: Fn()>(
    try_recv: F,
    pause: &S,
) -> (poll: Result<M, RecvErrorRR>)
    requires
        try_recv.ready(),
        call_requires(*pause, ()),
    ensures
        wait_gives(gives::<M, E, F>(try_recv), poll),
        paused_wait_gives(gives::<M, E, F>(try_recv), call_ensures(*pause, (), ()), poll),
        calls_taken(try_recv, poll),
{
    let mut tap = Tap::new((), try_recv);
    let poll = attempt::<M, E, (), F, S>(&mut tap, pause);
    let ghost all = tap;
    let close = Tap::<(), F, M>::close;
    let seen = close(tap);
    assert(all_calls((), try_recv, seen@));
    poll
}

/// What a wait whose attempts are allowed by `tries` may give.
pub open spec fn waits<M, X>(tries: spec_fn(Result<M, X>) -> bool) -> spec_fn(
    Result<M, RecvErrorRR>,
) -> bool {
    |poll: Result<M, RecvErrorRR>| wait_gives(tries, poll)
}

/// The end of a real channel that is received on with `F`, and tried with `G` while replaying. An
/// attempt that fails gives an `X`.
#[verifier::reject_recursive_types(I)]
#[verifier::reject_recursive_types(T)]
pub struct RealChannel<'a, F, G, S, I, T, X> {
    pub tap: Tap<F, G, (I, T)>,
    pub pause: &'a S,
    /// What each receive and each wait took off the channel.
    pub came: Ghost<Seq<Option<(I, T)>>>,
    pub errors: PhantomData<X>,
}

impl<'a, I: View, T, E, X, F: Calls<(I, T), E>, G: Calls<(I, T), X>, S: Fn()> Source<
    I,
    T,
    E,
> for RealChannel<'a, F, G, S, I, T, X> {
    type End = (F, G);

    open spec fn end(&self) -> (F, G) {
        (self.tap.first(), self.tap.second())
    }

    open spec fn direct(&self) -> spec_fn(Result<(I, T), E>) -> bool {
        gives(self.tap.first())
    }

    open spec fn polled(&self) -> spec_fn(PollOf<I, T>) -> bool {
        waits(gives::<(I, T), X, G>(self.tap.second()))
    }

    open spec fn came(&self) -> Seq<Option<(I, T)>> {
        self.came@
    }

    open spec fn can_recv(&self) -> bool {
        &&& self.tap.first().ready()
        &&& self.tap.second().ready()
        &&& call_requires(*self.pause, ())
        &&& same_messages(self.tap.seen(), self.came@)
    }

    open spec fn can_poll(&self) -> bool {
        &&& self.tap.first().ready()
        &&& self.tap.second().ready()
        &&& call_requires(*self.pause, ())
        &&& same_messages(self.tap.seen(), self.came@)
    }

    fn recv(&mut self) -> (got: Result<(I, T), E>) {
        let ghost before = self.tap.seen();
        let got = self.tap.call_first::<E>();
        proof {
            lemma_took_at_once(before, took(got));
            lemma_took_last(before, self.came@, took(got), self.tap.seen());
        }
        self.came = Ghost(self.came@.push(took(got)));
        got
    }

    fn poll(&mut self) -> (poll: PollOf<I, T>) {
        let ghost before = self.tap.seen();
        let poll = attempt::<(I, T), X, F, G, S>(&mut self.tap, self.pause);
        proof {
            lemma_took_last(before, self.came@, took(poll), self.tap.seen());
        }
        self.came = Ghost(self.came@.push(took(poll)));
        poll
    }
}

/// The end of a real channel on which a receive does not wait. It is tried in the same way while
/// replaying.
#[verifier::reject_recursive_types(I)]
#[verifier::reject_recursive_types(T)]
pub struct TriedChannel<'a, G, S, I, T> {
    pub tap: Tap<(), G, (I, T)>,
    pub pause: &'a S,
    /// What each receive and each wait took off the channel.
    pub came: Ghost<Seq<Option<(I, T)>>>,
}

impl<'a, I: View, T, X, G: Calls<(I, T), X>, S: Fn()> Source<I, T, X> for TriedChannel<
    'a,
    G,
    S,
    I,
    T,
> {
    type End = G;

    open spec fn end(&self) -> G {
        self.tap.second()
    }

    open spec fn direct(&self) -> spec_fn(Result<(I, T), X>) -> bool {
        gives(self.tap.second())
    }

    open spec fn polled(&self) -> spec_fn(PollOf<I, T>) -> bool {
        waits(gives::<(I, T), X, G>(self.tap.second()))
    }

    open spec fn came(&self) -> Seq<Option<(I, T)>> {
        self.came@
    }

    open spec fn can_recv(&self) -> bool {
        &&& self.tap.second().ready()
        &&& call_requires(*self.pause, ())
        &&& same_messages(self.tap.seen(), self.came@)
    }

    open spec fn can_poll(&self) -> bool {
        &&& self.tap.second().ready()
        &&& call_requires(*self.pause, ())
        &&& same_messages(self.tap.seen(), self.came@)
    }

    fn recv(&mut self) -> (got: Result<(I, T), X>) {
        let ghost before = self.tap.seen();
        let got = self.tap.call_second::<X>();
        proof {
            lemma_took_at_once(before, took(got));
            lemma_took_last(before, self.came@, took(got), self.tap.seen());
        }
        self.came = Ghost(self.came@.push(took(got)));
        got
    }

    fn poll(&mut self) -> (poll: PollOf<I, T>) {
        let ghost before = self.tap.seen();
        let poll = attempt::<(I, T), X, (), G, S>(&mut self.tap, self.pause);
        proof {
            lemma_took_last(before, self.came@, took(poll), self.tap.seen());
        }
        self.came = Ghost(self.came@.push(took(poll)));
        poll
    }
}

proof fn lemma_took_at_once<M>(earlier: Seq<Option<M>>, last: Option<M>)
    ensures
        took_last(earlier, last, earlier.push(last)),
{
    let none = nothing::<M>(0);
    assert(earlier + none =~= earlier);
    assert(earlier.push(last) == (earlier + none).push(last));
}

/// All calls of `first` and `second` are accounted for by a receive that takes `came`.
pub open spec fn all_taken<F, G, I: View, T>(
    first: F,
    second: G,
    came: Seq<Option<(I, T)>>,
) -> bool {
    exists|seen: Seq<Option<(I, T)>>| #[trigger]
        all_calls(first, second, seen) && same_messages(seen, came)
}

/// `step_takes` for what all calls of `first` and `second` took.
pub open spec fn calls_step<F, G, T, E>(
    first: F,
    second: G,
    mode: RRMode,
    written: Seq<EntryView>,
    queues: Map<Seq<u32>, Seq<T>>,
    r: Step<Result<T, E>>,
    written_after: Seq<EntryView>,
    after: Map<Seq<u32>, Seq<T>>,
) -> bool {
    exists|came: Seq<Option<DetMessage<T>>>|
        {
            &&& #[trigger] all_taken(first, second, came)
            &&& step_takes(
                mode,
                written,
                queues,
                Seq::<Option<DetMessage<T>>>::empty(),
                r,
                written_after,
                came,
                after,
            )
        }
}

/// `conserves` for what all calls of `first` and `second` took.
pub open spec fn calls_conserve<F, G, I: View, T>(
    first: F,
    second: G,
    queues: Map<I::V, Seq<T>>,
    handed: Option<T>,
    after: Map<I::V, Seq<T>>,
) -> bool {
    exists|came: Seq<Option<(I, T)>>|
        {
            &&& #[trigger] all_taken(first, second, came)
            &&& conserves(queues, Seq::<Option<(I, T)>>::empty(), handed, came, after)
        }
}

/// The receiving end of an inter-process channel.
pub struct IpcReceiver<T> {
    /// Messages that came before those that the replay had to wait for.
    pub buffer: BufferedValues<T>,
    pub metadata: RecordMetadata,
    pub mode: RRMode,
}

impl<T> IpcReceiver<T> {
    pub open spec fn wf(self) -> bool {
        self.buffer.wf()
    }

    /// The messages that are kept, by sender.
    pub open spec fn queues(self) -> Map<Seq<u32>, Seq<T>> {
        contents(self.buffer)
    }

    /// Both are the same end of the same channel, whatever they keep.
    pub open spec fn same_channel(self, other: IpcReceiver<T>) -> bool {
        &&& self.metadata == other.metadata
        &&& self.mode == other.mode
    }

    pub fn new(message_type: String, id: DetChannelId, mode: RRMode) -> (receiver: IpcReceiver<T>)
        ensures
            receiver.wf(),
            receiver.queues() == Map::<Seq<u32>, Seq<T>>::empty(),
            receiver.mode == mode,
            receiver.metadata == (RecordMetadata {
                message_type,
                channel_variant: ChannelVariant::Ipc,
                id,
            }),
    {
        let receiver = IpcReceiver {
            buffer: ThreadMap::new(),
            metadata: RecordMetadata::new(message_type, ChannelVariant::Ipc, id),
            mode,
        };
        assert(receiver.queues() =~= Map::<Seq<u32>, Seq<T>>::empty());
        receiver
    }

    /// Receives a message from `sender`. Messages from others are kept.
    pub fn replay_recv<F: Calls<DetMessage<T>, IpcTryRecvError>, S: Fn()>(
        &mut self,
        sender: &DetThreadId,
        real_try_recv: F,
        pause: &S,
    ) -> (r: Result<T, DesyncError>)
        requires
            old(self).wf(),
            real_try_recv.ready(),
            call_requires(*pause, ()),
        ensures
            final(self).wf(),
            final(self).same_channel(*old(self)),
            recv_expected(
                old(self).queues(),
                sender@,
                ipc_polls(real_try_recv),
                result_view(r),
                final(self).queues(),
            ),
            calls_conserve::<(), F, DetThreadId, T>(
                (),
                real_try_recv,
                old(self).queues(),
                message(r),
                final(self).queues(),
            ),
    {
        let none: Ghost<Seq<Option<DetMessage<T>>>> = Ghost(Seq::empty());
        let mut source = TriedChannel { tap: Tap::new((), real_try_recv), pause, came: none };
        let r = wait_for::<DetThreadId, T, IpcTryRecvError, TriedChannel<F, S, DetThreadId, T>>(
            sender,
            &mut source,
            &mut self.buffer,
        );
        let ghost came = source.came@;
        let ghost all = source.tap;
        let close = Tap::<(), F, DetMessage<T>>::close;
        let seen = close(source.tap);
        proof {
            lemma_waited(
                old(self).queues(),
                sender@,
                ipc_polls(real_try_recv),
                none@,
                result_view(r),
                came,
                self.queues(),
            );
            assert(all_calls((), real_try_recv, seen@));
            assert(all_taken((), real_try_recv, came));
        }
        r
    }

    /// Receives a message, blocking until one comes.
    pub fn recv<
        F: Calls<DetMessage<T>, IpcErrorVariants>,
        G: Calls<DetMessage<T>, IpcTryRecvError>,
        S: Fn(),
    >(&mut self, thread: &mut ThreadState, real_recv: F, real_try_recv: G, pause: &S) -> (r: Step<
        Result<T, IpcErrorVariants>,
    >)
        requires
            old(self).wf(),
            old(thread)@.initialized || old(self).mode == RRMode::NoRR,
            real_recv.ready(),
            real_try_recv.ready(),
            call_requires(*pause, ()),
        ensures
            final(self).wf(),
            final(self).same_channel(*old(self)),
            recv_step(
                old(self).mode,
                old(self).metadata@,
                (Wire { direct: gives(real_recv), polled: ipc_polls(real_try_recv) }),
                old(thread)@,
                old(self).queues(),
                r,
                final(thread)@,
                final(self).queues(),
            ),
            calls_step(
                real_recv,
                real_try_recv,
                old(self).mode,
                old(thread)@.log.written,
                old(self).queues(),
                r,
                final(thread)@.log.written,
                final(self).queues(),
            ),
    {
        let none: Ghost<Seq<Option<DetMessage<T>>>> = Ghost(Seq::empty());
        let mut source = RealChannel {
            tap: Tap::new(real_recv, real_try_recv),
            pause,
            came: none,
            errors: PhantomData::<IpcTryRecvError>,
        };
        let r = receive(thread, self.mode, &self.metadata, &mut source, &mut self.buffer);
        let ghost came = source.came@;
        let ghost all = source.tap;
        let close = Tap::<F, G, DetMessage<T>>::close;
        let seen = close(source.tap);
        assert(all_calls(real_recv, real_try_recv, seen@));
        assert(all_taken(real_recv, real_try_recv, came));
        r
    }

    /// Completes a `recv` whose thread was woken up by a desynchronization.
    pub fn recv_after_wakeup<F: Calls<DetMessage<T>, IpcErrorVariants>>(
        &mut self,
        thread: &mut ThreadState,
        real_recv: F,
    ) -> (r: Step<Result<T, IpcErrorVariants>>)
        requires
            old(self).wf(),
            real_recv.ready(),
        ensures
            final(self).wf(),
            final(self).same_channel(*old(self)),
            desync_step(
                DesyncErrorView::DesynchronizedWakeup,
                gives(real_recv),
                old(thread)@,
                old(self).queues(),
                r,
                final(thread)@,
                final(self).queues(),
            ),
            calls_conserve::<F, (), DetThreadId, T>(
                real_recv,
                (),
                old(self).queues(),
                step_message(r),
                final(self).queues(),
            ),
    {
        wake_up(thread, real_recv, &mut self.buffer)
    }

    /// Receives a message if one is there.
    pub fn try_recv<G: Calls<DetMessage<T>, IpcTryRecvError>, S: Fn()>(
        &mut self,
        thread: &mut ThreadState,
        real_try_recv: G,
        pause: &S,
    ) -> (r: Step<Result<T, IpcTryRecvError>>)
        requires
            old(self).wf(),
            old(thread)@.initialized || old(self).mode == RRMode::NoRR,
            real_try_recv.ready(),
            call_requires(*pause, ()),
        ensures
            final(self).wf(),
            final(self).same_channel(*old(self)),
            recv_step(
                old(self).mode,
                old(self).metadata@,
                (Wire { direct: gives(real_try_recv), polled: ipc_polls(real_try_recv) }),
                old(thread)@,
                old(self).queues(),
                r,
                final(thread)@,
                final(self).queues(),
            ),
            calls_step(
                (),
                real_try_recv,
                old(self).mode,
                old(thread)@.log.written,
                old(self).queues(),
                r,
                final(thread)@.log.written,
                final(self).queues(),
            ),
    {
        let none: Ghost<Seq<Option<DetMessage<T>>>> = Ghost(Seq::empty());
        let mut source = TriedChannel { tap: Tap::new((), real_try_recv), pause, came: none };
        let r = receive(thread, self.mode, &self.metadata, &mut source, &mut self.buffer);
        let ghost came = source.came@;
        let ghost all = source.tap;
        let close = Tap::<(), G, DetMessage<T>>::close;
        let seen = close(source.tap);
        assert(all_calls((), real_try_recv, seen@));
        assert(all_taken((), real_try_recv, came));
        r
    }

    /// Completes a `try_recv` whose thread was woken up by a desynchronization.
    pub fn try_recv_after_wakeup<G: Calls<DetMessage<T>, IpcTryRecvError>>(
        &mut self,
        thread: &mut ThreadState,
        real_try_recv: G,
    ) -> (r: Step<Result<T, IpcTryRecvError>>)
        requires
            old(self).wf(),
            real_try_recv.ready(),
        ensures
            final(self).wf(),
            final(self).same_channel(*old(self)),
            desync_step(
                DesyncErrorView::DesynchronizedWakeup,
                gives(real_try_recv),
                old(thread)@,
                old(self).queues(),
                r,
                final(thread)@,
                final(self).queues(),
            ),
            calls_conserve::<G, (), DetThreadId, T>(
                real_try_recv,
                (),
                old(self).queues(),
                step_message(r),
                final(self).queues(),
            ),
    {
        wake_up(thread, real_try_recv, &mut self.buffer)
    }

    /// The same receiver for a receiver set, where its messages are not decoded. `receiver` is the end
    /// of the real channel.
    pub fn to_opaque<R>(self, receiver: R) -> (opaque: OpaqueIpcReceiver<R>)
        ensures
            opaque == (OpaqueIpcReceiver {
                opaque_receiver: receiver,
                metadata: self.metadata,
                closed: false,
            }),
    {
        OpaqueIpcReceiver { opaque_receiver: receiver, metadata: self.metadata, closed: false }
    }
}

/// Completes a receive whose thread was woken up by a desynchronization.
fn wake_up<T, E, F: Calls<DetMessage<T>, E>>(
    thread: &mut ThreadState,
    real_recv: F,
    buffer: &mut BufferedValues<T>,
) -> (r: Step<Result<T, E>>)
    requires
        old(buffer).wf(),
        real_recv.ready(),
    ensures
        final(buffer).wf(),
        desync_step(
            DesyncErrorView::DesynchronizedWakeup,
            gives(real_recv),
            old(thread)@,
            contents(*old(buffer)),
            r,
            final(thread)@,
            contents(*final(buffer)),
        ),
        calls_conserve::<F, (), DetThreadId, T>(
            real_recv,
            (),
            contents(*old(buffer)),
            step_message(r),
            contents(*final(buffer)),
        ),
{
    let mut source = Direct { tap: Tap::new(real_recv, ()) };
    let r = handle_desync(thread, DesyncError::DesynchronizedWakeup, &mut source, buffer);
    let ghost all = source.tap;
    let close = Tap::<F, (), DetMessage<T>>::close;
    let seen = close(source.tap);
    assert(all_calls(real_recv, (), seen@));
    assert(all_taken(real_recv, (), seen@));
    r
}

/// What a wait on an inter-process channel may give.
pub open spec fn ipc_polls<T, G: Calls<DetMessage<T>, IpcTryRecvError>>(
    real_try_recv: G,
) -> spec_fn(Poll<T>) -> bool {
    waits(gives(real_try_recv))
}

/// A receiver whose messages are not decoded.
pub struct OpaqueIpcReceiver<R> {
    pub opaque_receiver: R,
    pub metadata: RecordMetadata,
    /// The channel is known to be closed. Then it must not report this again.
    pub closed: bool,
}

/// The library's side of a new channel, once there is a real one. `message_type` names the type of
/// its messages.
pub fn channel<T>(thread: &mut ThreadState, message_type: String) -> (r: Result<
    (IpcSender, IpcReceiver<T>),
    DesyncError,
>)
    requires
        old(thread)@.initialized,
    ensures
        created(old(thread)@, ChannelVariant::Ipc, message_type@, r, final(thread)@),
        r matches Ok(ends) ==> {
            let metadata = next_metadata(old(thread)@, ChannelVariant::Ipc, message_type@);
            &&& ends.0.metadata@ == metadata
            &&& ends.0.mode == old(thread)@.mode
            &&& ends.1.wf()
            &&& ends.1.queues() == Map::<Seq<u32>, Seq<T>>::empty()
            &&& ends.1.metadata@ == metadata
            &&& ends.1.mode == old(thread)@.mode
        },
{
    let id = DetChannelId::new(thread);
    let metadata = RecordMetadata::new(message_type.clone(), ChannelVariant::Ipc, id.clone());
    match record_creation(thread, &metadata) {
        Ok(_) => Ok(
            (
                IpcSender::new(metadata, thread.mode),
                IpcReceiver::new(message_type, id, thread.mode),
            ),
        ),
        Err(e) => Err(e),
    }
}

} // verus!
