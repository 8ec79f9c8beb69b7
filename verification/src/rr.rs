//! What all kinds of channels share when they are recorded and replayed.

use vstd::prelude::*;
use std::collections::VecDeque;
use std::marker::PhantomData;
use crate::desync::{desync_step, drop_sender, handle_desync, without_sender, DetMessage, Step};
use crate::detthread::{DetThreadId, ThreadState, ThreadView};
use crate::error::{recv_error_view, result_view, DesyncError, DesyncErrorView, RecvErrorRR};
use crate::mode::RRMode;
use crate::recorder::{after_fetch, after_write, write_gave, EventRecorder, LogView};
use crate::recordlog::{
    channel_mismatch, entry_of, outcome_of, reports, EntryView, MetadataView, RecordEntry,
    RecordMetadata, TivoEvent, TivoEventView,
};
use crate::source::{
    accounted, conserves, found_from, gives, lemma_conserves_chain, lemma_idle_conserves,
    lemma_wait_accounted, lemma_waited, outcome_message, recv_takes, step_message, step_takes,
    takes, waited, Source,
};
use crate::thread_map::{contents, dequeue, keep, queue_of, BufferedValues, SenderKey, ThreadMap};
use crate::wire::{all_calls, took, Calls, Tap};

verus! {

/// Channels are assigned a deterministic id: the thread that created the channel, and how many
/// channels that thread had created before.
#[derive(Debug)]
pub struct DetChannelId {
    pub det_thread_id: DetThreadId,
    pub channel_id: u32,
}

/// Mathematical value of a `DetChannelId`.
pub struct ChannelIdView {
    pub thread: Seq<u32>,
    pub channel: u32,
}

impl View for DetChannelId {
    type V = ChannelIdView;

    open spec fn view(&self) -> ChannelIdView {
        ChannelIdView { thread: self.det_thread_id@, channel: self.channel_id }
    }
}

impl Clone for DetChannelId {
    fn clone(&self) -> (id: DetChannelId)
        ensures
            id == *self,
    {
        DetChannelId { det_thread_id: self.det_thread_id.clone(), channel_id: self.channel_id }
    }
}

impl PartialEq for DetChannelId {
    fn eq(&self, other: &DetChannelId) -> (equal: bool) {
        self.det_thread_id == other.det_thread_id && self.channel_id == other.channel_id
    }
}

impl vstd::std_specs::cmp::PartialEqSpecImpl for DetChannelId {
    open spec fn obeys_eq_spec() -> bool {
        true
    }

    open spec fn eq_spec(&self, other: &DetChannelId) -> bool {
        self@ == other@
    }
}

impl Eq for DetChannelId {
}

impl DetChannelId {
    /// The mathematical value of the id that stands for no channel.
    pub open spec fn fake_view() -> ChannelIdView {
        ChannelIdView { thread: Seq::<u32>::empty(), channel: 0 }
    }

    /// The id of the next channel that the thread creates.
    pub open spec fn next_view(thread: ThreadView) -> ChannelIdView {
        ChannelIdView { thread: thread.det_id, channel: thread.next_channel_id }
    }

    /// The thread once it has created one more channel.
    pub open spec fn after_new(thread: ThreadView) -> ThreadView {
        ThreadView {
            next_channel_id: ((thread.next_channel_id + 1) % 0x1_0000_0000) as u32,
            ..thread
        }
    }

    /// Assigns an id to a new channel of the thread.
    pub fn new(thread: &mut ThreadState) -> (id: DetChannelId)
        requires
            old(thread)@.initialized,
        ensures
            id@ == DetChannelId::next_view(old(thread)@),
            final(thread)@ == DetChannelId::after_new(old(thread)@),
    {
        let channel_id: u32 = thread.next_channel_id;
        thread.next_channel_id = thread.next_channel_id.wrapping_add(1);
        DetChannelId { det_thread_id: thread.det_id.clone(), channel_id }
    }

    /// The same as `new`, under a name that tells that the thread's counter advances.
    pub fn generate_new_unique_channel_id(thread: &mut ThreadState) -> (id: DetChannelId)
        requires
            old(thread)@.initialized,
        ensures
            id@ == DetChannelId::next_view(old(thread)@),
            final(thread)@ == DetChannelId::after_new(old(thread)@),
    {
        DetChannelId::new(thread)
    }

    pub fn from_raw(dti: DetThreadId, channel_id: u32) -> (id: DetChannelId)
        ensures
            id@ == (ChannelIdView { thread: dti@, channel: channel_id }),
    {
        DetChannelId { det_thread_id: dti, channel_id }
    }

    /// An id where one is asked for, but no channel is meant.
    pub fn fake() -> (id: DetChannelId)
        ensures
            id@ == DetChannelId::fake_view(),
    {
        DetChannelId { det_thread_id: DetThreadId::new(), channel_id: 0 }
    }
}

/// Why a logged entry is not what is expected on the channel described by `metadata`, if so. The
/// event is checked before the channel.
pub open spec fn event_mismatch(
    accepted: bool,
    expected: TivoEventView,
    entry: EntryView,
    metadata: MetadataView,
) -> Option<DesyncErrorView> {
    if !accepted {
        Some(DesyncErrorView::EventMismatch(entry.event, expected))
    } else {
        channel_mismatch(entry, metadata)
    }
}

/// Knows which logged events are those of an operation.
pub trait RecordEventChecker {
    /// The logged event is one of this operation.
    spec fn accepts(&self, event: TivoEventView) -> bool;

    /// What is reported as expected instead of another event.
    spec fn expected_event(&self) -> TivoEventView;

    /// Succeeds if `re` matches the expected event. Otherwise fails with the expected event.
    fn check_recorded_event(&self, re: &TivoEvent) -> (r: Result<(), TivoEvent>)
        ensures
            match r {
                Ok(_) => self.accepts(re@),
                Err(e) => !self.accepts(re@) && e@ == self.expected_event(),
            },
    ;
}

/// Compares a logged entry with the operation and with the channel described by `metadata`.
pub fn check_event_mismatch<C: RecordEventChecker>(
    checker: &C,
    record_entry: &RecordEntry,
    metadata: &RecordMetadata,
) -> (r: Result<(), DesyncError>)
    ensures
        reports(
            r,
            event_mismatch(
                checker.accepts(record_entry@.event),
                checker.expected_event(),
                record_entry@,
                metadata@,
            ),
        ),
{
    match checker.check_recorded_event(&record_entry.event) {
        Ok(_) => record_entry.check_mismatch(metadata),
        Err(expected_event) => Err(
            DesyncError::EventMismatch(record_entry.event.clone(), expected_event),
        ),
    }
}

/// What one attempt to take a message off the wire gave.
pub type Poll<T> = PollOf<DetThreadId, T>;

/// What one attempt to take a message off the wire gave, where senders are told apart by `I`.
pub type PollOf<I, T> = Result<(I, T), RecvErrorRR>;

/// The queues once the messages of `polls` are kept, each behind the others of its sender.
pub open spec fn stash<I: View, T>(queues: Map<I::V, Seq<T>>, polls: Seq<PollOf<I, T>>) -> Map<I::V, Seq<T>>
    decreases polls.len(),
{
    if polls.len() == 0 {
        queues
    } else {
        let earlier = stash(queues, polls.drop_last());
        match polls.last() {
            Ok((id, msg)) => keep(earlier, id@, msg),
            Err(_) => earlier,
        }
    }
}

/// A message came, but not from `sender`.
pub open spec fn is_other<I: View, T>(poll: PollOf<I, T>, sender: I::V) -> bool {
    match poll {
        Ok((id, _)) => id@ != sender,
        Err(_) => false,
    }
}

/// Where a message from `sender` was kept, it comes first and nothing is polled. Otherwise
/// `polls` were made until a message from `sender` or an error came, and the messages of all
/// others are kept. After 2^64 - 1 messages from others the wait ends as if it had timed out.
pub open spec fn expected_recv<I: View, T>(
    queues: Map<I::V, Seq<T>>,
    sender: I::V,
    polls: Seq<PollOf<I, T>>,
    r: Result<T, DesyncErrorView>,
    after: Map<I::V, Seq<T>>,
) -> bool {
    if queue_of(queues, sender).len() > 0 {
        &&& polls.len() == 0
        &&& r == Ok::<T, DesyncErrorView>(queue_of(queues, sender)[0])
        &&& after == dequeue(queues, sender)
    } else {
        &&& polls.len() > 0
        &&& forall|i: int| 0 <= i < polls.len() - 1 ==> is_other(#[trigger] polls[i], sender)
        &&& match polls.last() {
            Err(e) => {
                &&& r == Err::<T, DesyncErrorView>(recv_error_view(e))
                &&& after == stash(queues, polls.drop_last())
            },
            Ok((id, msg)) => if id@ == sender {
                &&& r == Ok::<T, DesyncErrorView>(msg)
                &&& after == stash(queues, polls.drop_last())
            } else {
                &&& polls.len() == u64::MAX
                &&& r == Err::<T, DesyncErrorView>(DesyncErrorView::Timeout(None))
                &&& after == stash(queues, polls)
            },
        }
    }
}

/// `expected_recv` for some polls that `polled` allows.
pub open spec fn recv_expected<I: View, T>(
    queues: Map<I::V, Seq<T>>,
    sender: I::V,
    polled: spec_fn(PollOf<I, T>) -> bool,
    r: Result<T, DesyncErrorView>,
    after: Map<I::V, Seq<T>>,
) -> bool {
    exists|polls: Seq<PollOf<I, T>>|
        {
            &&& #[trigger] expected_recv(queues, sender, polls, r, after)
            &&& forall|i: int| 0 <= i < polls.len() ==> polled(#[trigger] polls[i])
        }
}

/// Waits for a message from `expected_sender`. Messages from others are kept in the buffer, which
/// is looked at first.
pub fn wait_for<I: SenderKey, T, E, S: Source<I, T, E>>(
    expected_sender: &I,
    source: &mut S,
    buffer: &mut ThreadMap<I, VecDeque<T>>,
) -> (r: Result<T, DesyncError>)
    requires
        old(buffer).wf(),
        queue_of(contents(*old(buffer)), expected_sender@).len() == 0 ==> old(source).can_poll(),
    ensures
        final(buffer).wf(),
        final(source).end() == old(source).end(),
        final(source).can_recv() == old(source).can_recv(),
        final(source).can_poll() == old(source).can_poll(),
        final(source).direct() == old(source).direct(),
        final(source).polled() == old(source).polled(),
        recv_expected(
            contents(*old(buffer)),
            expected_sender@,
            old(source).polled(),
            result_view(r),
            contents(*final(buffer)),
        ),
        waited(
            contents(*old(buffer)),
            expected_sender@,
            old(source).polled(),
            old(source).came(),
            result_view(r),
            final(source).came(),
            contents(*final(buffer)),
        ),
{
    let ghost queues = contents(*buffer);
    let ghost sender = expected_sender@;
    let ghost came = source.came();
    let ghost polled = source.polled();
    let ghost mut polls: Seq<PollOf<I, T>> = Seq::empty();
    proof {
        assert(came =~= came + takes(polls));
    }
    match buffer.pop_message(expected_sender) {
        Some(val) => {
            assert(expected_recv(
                queues,
                sender,
                polls,
                Ok::<T, DesyncErrorView>(val),
                contents(*buffer),
            ));
            return Ok(val);
        },
        None => {},
    }
    let mut count: u64 = 0;
    while count < u64::MAX
        invariant
            buffer.wf(),
            queues == contents(*old(buffer)),
            queue_of(queues, sender).len() == 0,
            sender == expected_sender@,
            came == old(source).came(),
            polled == old(source).polled(),
            source.can_poll(),
            source.end() == old(source).end(),
            source.can_recv() == old(source).can_recv(),
            source.can_poll() == old(source).can_poll(),
            source.direct() == old(source).direct(),
            source.polled() == polled,
            source.came() == came + takes(polls),
            polls.len() == count,
            contents(*buffer) == stash(queues, polls),
            forall|i: int|
                0 <= i < polls.len() ==> {
                    &&& is_other(#[trigger] polls[i], sender)
                    &&& polled(polls[i])
                },
        decreases u64::MAX - count,
    {
        let poll = source.poll();
        let ghost before = polls;
        proof {
            polls = polls.push(poll);
            assert(polls.drop_last() =~= before);
            assert(polls.last() == poll);
            assert(came + takes(polls) =~= (came + takes(before)).push(took(poll)));
        }
        match poll {
            Ok((msg_sender, msg)) => {
                if msg_sender.same(expected_sender) {
                    assert(expected_recv(
                        queues,
                        sender,
                        polls,
                        Ok::<T, DesyncErrorView>(msg),
                        contents(*buffer),
                    ));
                    return Ok(msg);
                } else {
                    buffer.push_message(msg_sender, msg);
                }
            },
            Err(e) => {
                assert(expected_recv(
                    queues,
                    sender,
                    polls,
                    Err::<T, DesyncErrorView>(recv_error_view(e)),
                    contents(*buffer),
                ));
                return Err(DesyncError::from(e));
            },
        }
        count += 1;
    }
    assert(is_other(polls[polls.len() - 1], sender));
    assert(expected_recv(
        queues,
        sender,
        polls,
        Err::<T, DesyncErrorView>(DesyncErrorView::Timeout(None)),
        contents(*buffer),
    ));
    Err(DesyncError::Timeout(None))
}

/// The messages that all calls of `receiver_with_timeout` gave are accounted for: `seen` tells them
/// from the first call to the last.
pub open spec fn calls_accounted<I: View, T, F>(
    receiver_with_timeout: F,
    queues: Map<I::V, Seq<T>>,
    sender: I::V,
    r: Result<T, DesyncErrorView>,
    after: Map<I::V, Seq<T>>,
) -> bool {
    exists|seen: Seq<Option<(I, T)>>|
        {
            &&& #[trigger] all_calls(receiver_with_timeout, (), seen)
            &&& accounted(queues, seen, found_from(sender, r), after)
        }
}

/// `expected_recv` for the polls that all calls of `receiver_with_timeout` were.
pub open spec fn calls_expected<I: View, T, F: Calls<(I, T), RecvErrorRR>>(
    receiver_with_timeout: F,
    queues: Map<I::V, Seq<T>>,
    sender: I::V,
    r: Result<T, DesyncErrorView>,
    after: Map<I::V, Seq<T>>,
) -> bool {
    exists|polls: Seq<PollOf<I, T>>|
        {
            &&& #[trigger] expected_recv(queues, sender, polls, r, after)
            &&& forall|i: int| 0 <= i < polls.len() ==> receiver_with_timeout.gives(#[trigger] polls[i])
            &&& all_calls(receiver_with_timeout, (), takes(polls))
        }
}

/// Waits for a message from `expected_sender`. Messages from others are kept in the buffer, which
/// is looked at first. Every call of `receiver_with_timeout` is accounted for.
pub fn recv_expected_message<I: SenderKey, T, F: Calls<(I, T), RecvErrorRR>>(
    expected_sender: &I,
    receiver_with_timeout: F,
    buffer: &mut ThreadMap<I, VecDeque<T>>,
) -> (r: Result<T, DesyncError>)
    requires
        old(buffer).wf(),
        queue_of(contents(*old(buffer)), expected_sender@).len() == 0
            ==> receiver_with_timeout.ready(),
    ensures
        final(buffer).wf(),
        recv_expected(
            contents(*old(buffer)),
            expected_sender@,
            |poll: PollOf<I, T>| receiver_with_timeout.gives(poll),
            result_view(r),
            contents(*final(buffer)),
        ),
        calls_expected::<I, T, F>(
            receiver_with_timeout,
            contents(*old(buffer)),
            expected_sender@,
            result_view(r),
            contents(*final(buffer)),
        ),
        calls_accounted::<I, T, F>(
            receiver_with_timeout,
            contents(*old(buffer)),
            expected_sender@,
            result_view(r),
            contents(*final(buffer)),
        ),
{
    let ghost queues = contents(*buffer);
    let ghost sender = expected_sender@;
    let ghost polled = gives(receiver_with_timeout);
    let mut tap = Tap::new(receiver_with_timeout, ());
    let r = wait_for::<I, T, RecvErrorRR, Tap<F, (), (I, T)>>(expected_sender, &mut tap, buffer);
    let ghost all = tap;
    let close = Tap::<F, (), (I, T)>::close;
    let seen = close(tap);
    let ghost after = contents(*buffer);
    proof {
        let found = result_view(r);
        let none = Seq::<Option<(I, T)>>::empty();
        let polls = choose|polls: Seq<PollOf<I, T>>|
            {
                &&& #[trigger] expected_recv(queues, sender, polls, found, after)
                &&& forall|i: int| 0 <= i < polls.len() ==> polled(#[trigger] polls[i])
                &&& seen@ == none + takes(polls)
            };
        assert(none + takes(polls) =~= takes(polls));
        assert(seen == Ghost(takes(polls)));
        assert(all_calls(receiver_with_timeout, (), takes(polls)));
        lemma_wait_accounted(queues, sender, polls, found, after);
        lemma_expected_weaken(
            queues,
            sender,
            polled,
            |poll: PollOf<I, T>| receiver_with_timeout.gives(poll),
            found,
            after,
        );
    }
    r
}

/// A logged receive: the thread that the message came from, or the error that was seen.
pub enum Replayed<E> {
    Message(DetThreadId),
    Failure(E),
}

/// Ties the errors of a receive operation to the events of the log. Each receive operation of a
/// kind of channels has an error type of its own.
pub trait RecvRecordReplay: Sized {
    /// The event of a message from `sender`.
    spec fn succ_event(sender: Seq<u32>) -> TivoEventView;

    /// The event of this error.
    spec fn err_event(self) -> TivoEventView;

    /// What a logged event says: the sender or the error. Nothing if it is the event of another
    /// operation.
    spec fn decode(event: TivoEventView) -> Option<Result<Seq<u32>, Self>>;

    /// What was logged is what replay reads.
    proof fn lemma_decode(sender: Seq<u32>, error: Self)
        ensures
            Self::decode(Self::succ_event(sender)) == Some(Ok::<Seq<u32>, Self>(sender)),
            Self::decode(error.err_event()) == Some(Err::<Seq<u32>, Self>(error)),
    ;

    /// What replay reads is what the event tells of a receive. An error is known by its event.
    proof fn lemma_outcome(event: TivoEventView)
        ensures
            match Self::decode(event) {
                Some(Ok(sender)) => outcome_of(event) == Some(
                    Ok::<Seq<u32>, TivoEventView>(sender),
                ),
                Some(Err(e)) => {
                    &&& outcome_of(event) == Some(Err::<Seq<u32>, TivoEventView>(event))
                    &&& e.err_event() == event
                },
                None => true,
            },
    ;

    fn recorded_event_succ(dtid: DetThreadId) -> (event: TivoEvent)
        ensures
            event@ == Self::succ_event(dtid@),
    ;

    fn recorded_event_err(&self) -> (event: TivoEvent)
        ensures
            event@ == (*self).err_event(),
    ;

    /// Whether the event is one of this operation.
    fn is_recorded_event(event: &TivoEvent) -> (found: bool)
        ensures
            found == (Self::decode(event@) is Some),
    ;

    /// Reads a logged event of this operation.
    fn replay_recorded_event(event: TivoEvent) -> (replayed: Replayed<Self>)
        requires
            Self::decode(event@) is Some,
        ensures
            Self::decode(event@) == Some(
                match replayed {
                    Replayed::Message(sender) => Ok::<Seq<u32>, Self>(sender@),
                    Replayed::Failure(e) => Err::<Seq<u32>, Self>(e),
                },
            ),
    ;
}

/// Expects the event of a receive whose errors are of type `E`.
pub struct RecvChecker<E> {
    pub errors: PhantomData<E>,
}

impl<E: RecvRecordReplay> RecordEventChecker for RecvChecker<E> {
    open spec fn accepts(&self, event: TivoEventView) -> bool {
        E::decode(event) is Some
    }

    open spec fn expected_event(&self) -> TivoEventView {
        E::succ_event(Seq::<u32>::empty())
    }

    fn check_recorded_event(&self, re: &TivoEvent) -> (r: Result<(), TivoEvent>) {
        if E::is_recorded_event(re) {
            Ok(())
        } else {
            Err(E::recorded_event_succ(DetThreadId::new()))
        }
    }
}

/// The event that records what was received.
pub open spec fn recv_event<T, E: RecvRecordReplay>(got: Result<DetMessage<T>, E>) -> TivoEventView {
    match got {
        Ok((sender, _)) => E::succ_event(sender@),
        Err(e) => e.err_event(),
    }
}

/// `got` is handed on without its sender.
pub open spec fn handed_on<T, E>(
    got: Result<DetMessage<T>, E>,
    r: Result<Result<T, E>, DesyncErrorView>,
) -> bool {
    r == Ok::<Result<T, E>, DesyncErrorView>(without_sender(got))
}

/// `got` is written to the log and handed on, or the log cannot be written.
pub open spec fn recorded_recv<T, E: RecvRecordReplay>(
    metadata: MetadataView,
    got: Result<DetMessage<T>, E>,
    log: LogView,
    r: Result<Result<T, E>, DesyncErrorView>,
    log_after: LogView,
) -> bool {
    &&& log_after == after_write(log, entry_of(recv_event(got), metadata), r is Ok)
    &&& match r {
        Ok(v) => v == without_sender(got),
        Err(e) => e == DesyncErrorView::CannotWriteEventToLog(
            entry_of(recv_event(got), metadata),
        ),
    }
    &&& write_gave(log, entry_of(recv_event(got), metadata), r is Ok)
}

/// A message found on replay, or why there was none: a timeout names the type of the message.
pub open spec fn name_timeout<T, E>(
    found: Result<T, DesyncErrorView>,
    message_type: Seq<char>,
) -> Result<Result<T, E>, DesyncErrorView> {
    match found {
        Ok(msg) => Ok(Ok(msg)),
        Err(DesyncErrorView::Timeout(None)) => Err(DesyncErrorView::Timeout(Some(message_type))),
        Err(e) => Err(e),
    }
}

/// What is received follows the first of the entries in `remaining`.
pub open spec fn replayed_recv<T, E: RecvRecordReplay>(
    metadata: MetadataView,
    polled: spec_fn(Poll<T>) -> bool,
    remaining: Seq<EntryView>,
    queues: Map<Seq<u32>, Seq<T>>,
    r: Result<Result<T, E>, DesyncErrorView>,
    after: Map<Seq<u32>, Seq<T>>,
) -> bool {
    if remaining.len() == 0 {
        r == Err::<Result<T, E>, DesyncErrorView>(DesyncErrorView::NoEntryInLog) && after == queues
    } else {
        replayed_entry(metadata, polled, remaining[0], queues, r, after)
    }
}

/// What is received follows `entry`.
pub open spec fn replayed_entry<T, E: RecvRecordReplay>(
    metadata: MetadataView,
    polled: spec_fn(Poll<T>) -> bool,
    entry: EntryView,
    queues: Map<Seq<u32>, Seq<T>>,
    r: Result<Result<T, E>, DesyncErrorView>,
    after: Map<Seq<u32>, Seq<T>>,
) -> bool {
    match event_mismatch(
        E::decode(entry.event) is Some,
        E::succ_event(Seq::<u32>::empty()),
        entry,
        metadata,
    ) {
        Some(e) => r == Err::<Result<T, E>, DesyncErrorView>(e) && after == queues,
        None => match E::decode(entry.event) {
            Some(Ok(sender)) => replayed_message(
                polled,
                sender,
                entry.message_type,
                queues,
                r,
                after,
            ),
            Some(Err(e)) => r == Ok::<Result<T, E>, DesyncErrorView>(Err(e)) && after == queues,
            None => false,
        },
    }
}

/// What is received is a message from `sender`.
pub open spec fn replayed_message<T, E>(
    polled: spec_fn(Poll<T>) -> bool,
    sender: Seq<u32>,
    message_type: Seq<char>,
    queues: Map<Seq<u32>, Seq<T>>,
    r: Result<Result<T, E>, DesyncErrorView>,
    after: Map<Seq<u32>, Seq<T>>,
) -> bool {
    exists|found: Result<T, DesyncErrorView>|
        {
            &&& #[trigger] recv_expected(queues, sender, polled, found, after)
            &&& r == name_timeout::<T, E>(found, message_type)
        }
}

/// A receive in each of the modes: `direct` tells what a plain receive may give, `polled` what the
/// attempts of a replay may give.
pub open spec fn recv_relation<T, E: RecvRecordReplay>(
    mode: RRMode,
    metadata: MetadataView,
    direct: spec_fn(Result<DetMessage<T>, E>) -> bool,
    polled: spec_fn(Poll<T>) -> bool,
    log: LogView,
    queues: Map<Seq<u32>, Seq<T>>,
    r: Result<Result<T, E>, DesyncErrorView>,
    log_after: LogView,
    after: Map<Seq<u32>, Seq<T>>,
) -> bool {
    match mode {
        RRMode::Record => {
            &&& after == queues
            &&& exists|got: Result<DetMessage<T>, E>|
                direct(got) && #[trigger] recorded_recv(metadata, got, log, r, log_after)
        },
        RRMode::Replay => {
            &&& log_after == after_fetch(log)
            &&& replayed_recv(metadata, polled, log.remaining, queues, r, after)
        },
        RRMode::NoRR => {
            &&& after == queues
            &&& log_after == log
            &&& exists|got: Result<DetMessage<T>, E>| direct(got) && #[trigger] handed_on(got, r)
        },
    }
}

/// Writes what was received to the log and hands it on.
pub fn record_received<T, E: RecvRecordReplay>(
    got: Result<DetMessage<T>, E>,
    metadata: &RecordMetadata,
    recordlog: &mut EventRecorder,
) -> (r: Result<Result<T, E>, DesyncError>)
    ensures
        recorded_recv(metadata@, got, old(recordlog)@, result_view(r), final(recordlog)@),
{
    let (recorded, result) = match got {
        Ok((sender_thread, msg)) => (E::recorded_event_succ(sender_thread), Ok(msg)),
        Err(e) => (e.recorded_event_err(), Err(e)),
    };
    match recordlog.write_event_to_record(recorded, metadata) {
        Ok(_) => Ok(result),
        Err(e) => Err(e),
    }
}

/// Receives what the log tells: the error that was recorded, or a message from the thread that it
/// came from.
fn replay_received<T, E: RecvRecordReplay, S: Source<DetThreadId, T, E>>(
    metadata: &RecordMetadata,
    source: &mut S,
    buffer: &mut BufferedValues<T>,
    recordlog: &mut EventRecorder,
) -> (r: Result<Result<T, E>, DesyncError>)
    requires
        old(buffer).wf(),
        old(source).can_poll(),
    ensures
        final(buffer).wf(),
        final(source).end() == old(source).end(),
        final(source).can_recv() == old(source).can_recv(),
        final(source).direct() == old(source).direct(),
        final(recordlog)@ == after_fetch(old(recordlog)@),
        replayed_recv(
            metadata@,
            old(source).polled(),
            old(recordlog)@.remaining,
            contents(*old(buffer)),
            result_view(r),
            contents(*final(buffer)),
        ),
        conserves(
            contents(*old(buffer)),
            old(source).came(),
            outcome_message(r),
            final(source).came(),
            contents(*final(buffer)),
        ),
{
    let ghost polled = source.polled();
    let ghost came = source.came();
    proof {
        lemma_idle_conserves::<DetThreadId, T>(contents(*buffer), came);
    }
    let record_entry = match recordlog.get_log_entry() {
        Ok(entry) => entry,
        Err(e) => {
            return Err(e);
        },
    };
    let checker = RecvChecker::<E> { errors: PhantomData };
    match check_event_mismatch(&checker, &record_entry, metadata) {
        Ok(_) => {},
        Err(e) => {
            return Err(e);
        },
    }
    match E::replay_recorded_event(record_entry.event) {
        Replayed::Message(sender) => {
            let found = wait_for(&sender, source, buffer);
            proof {
                lemma_waited(
                    contents(*old(buffer)),
                    sender@,
                    polled,
                    came,
                    result_view(found),
                    source.came(),
                    contents(*buffer),
                );
            }
            assert(recv_expected(
                contents(*old(buffer)),
                sender@,
                polled,
                result_view(found),
                contents(*buffer),
            ));
            match found {
                Ok(msg) => Ok(Ok(msg)),
                Err(DesyncError::Timeout(None)) => Err(
                    DesyncError::Timeout(Some(record_entry.message_type)),
                ),
                Err(e) => Err(e),
            }
        },
        Replayed::Failure(e) => Ok(Err(e)),
    }
}

/// Receives a message as the mode demands. While recording, what came is written to the log. While
/// replaying, the log tells which error is to be returned or whose message is to be waited for.
pub fn record_replay_recv<T, E: RecvRecordReplay, S: Source<DetThreadId, T, E>>(
    mode: RRMode,
    metadata: &RecordMetadata,
    source: &mut S,
    buffer: &mut BufferedValues<T>,
    recordlog: &mut EventRecorder,
) -> (r: Result<Result<T, E>, DesyncError>)
    requires
        old(buffer).wf(),
        old(source).can_recv(),
        old(source).can_poll(),
    ensures
        final(buffer).wf(),
        final(source).end() == old(source).end(),
        final(source).can_recv(),
        final(source).direct() == old(source).direct(),
        recv_relation(
            mode,
            metadata@,
            old(source).direct(),
            old(source).polled(),
            old(recordlog)@,
            contents(*old(buffer)),
            result_view(r),
            final(recordlog)@,
            contents(*final(buffer)),
        ),
        recv_takes(
            mode,
            contents(*old(buffer)),
            old(source).came(),
            r,
            final(source).came(),
            contents(*final(buffer)),
        ),
{
    match mode {
        RRMode::Record => {
            let got = source.recv();
            record_received(got, metadata, recordlog)
        },
        RRMode::Replay => {
            replay_received(metadata, source, buffer, recordlog)
        },
        RRMode::NoRR => {
            let got = source.recv();
            assert(handed_on(got, Ok(without_sender(got))));
            Ok(drop_sender(got))
        },
    }
}

/// What a plain receive of a channel may give, and what the attempts of a replay may give.
#[verifier::reject_recursive_types(T)]
#[verifier::reject_recursive_types(E)]
pub struct Wire<T, E> {
    pub direct: spec_fn(Result<DetMessage<T>, E>) -> bool,
    pub polled: spec_fn(Poll<T>) -> bool,
}

/// What becomes of the outcome of a receive: it is handed on, the thread sleeps at the end of its
/// log, or a desynchronization is handled.
pub open spec fn settled<T, E>(
    outcome: Result<Result<T, E>, DesyncErrorView>,
    direct: spec_fn(Result<DetMessage<T>, E>) -> bool,
    thread: ThreadView,
    queues: Map<Seq<u32>, Seq<T>>,
    r: Step<Result<T, E>>,
    thread_after: ThreadView,
    after: Map<Seq<u32>, Seq<T>>,
) -> bool {
    match outcome {
        Ok(v) => r == Step::Done(v) && thread_after == thread && after == queues,
        Err(DesyncErrorView::NoEntryInLog) => r is Sleep && thread_after == thread && after
            == queues,
        Err(e) => desync_step(e, direct, thread, queues, r, thread_after, after),
    }
}

/// A receive, together with what the thread does on a desynchronization.
pub open spec fn recv_step<T, E: RecvRecordReplay>(
    mode: RRMode,
    metadata: MetadataView,
    wire: Wire<T, E>,
    thread: ThreadView,
    queues: Map<Seq<u32>, Seq<T>>,
    r: Step<Result<T, E>>,
    thread_after: ThreadView,
    after: Map<Seq<u32>, Seq<T>>,
) -> bool {
    exists|outcome: Result<Result<T, E>, DesyncErrorView>, log: LogView, mid: Map<Seq<u32>, Seq<T>>|
        {
            &&& recv_relation(
                mode,
                metadata,
                wire.direct,
                wire.polled,
                thread.log,
                queues,
                outcome,
                log,
                mid,
            )
            &&& #[trigger] settled(
                outcome,
                wire.direct,
                thread.with_log(log),
                mid,
                r,
                thread_after,
                after,
            )
        }
}

/// Receives a message as the mode demands, and handles a desynchronization.
pub fn receive<T, E: RecvRecordReplay, S: Source<DetThreadId, T, E>>(
    thread: &mut ThreadState,
    mode: RRMode,
    metadata: &RecordMetadata,
    source: &mut S,
    buffer: &mut BufferedValues<T>,
) -> (r: Step<Result<T, E>>)
    requires
        old(buffer).wf(),
        old(source).can_recv(),
        old(source).can_poll(),
    ensures
        final(buffer).wf(),
        final(source).end() == old(source).end(),
        final(source).can_recv(),
        recv_step(
            mode,
            metadata@,
            (Wire { direct: old(source).direct(), polled: old(source).polled() }),
            old(thread)@,
            contents(*old(buffer)),
            r,
            final(thread)@,
            contents(*final(buffer)),
        ),
        step_takes(
            mode,
            old(thread)@.log.written,
            contents(*old(buffer)),
            old(source).came(),
            r,
            final(thread)@.log.written,
            final(source).came(),
            contents(*final(buffer)),
        ),
{
    let ghost wire = Wire { direct: source.direct(), polled: source.polled() };
    let ghost came = source.came();
    let outcome = record_replay_recv(mode, metadata, source, buffer, &mut thread.recorder);
    let ghost seen = result_view(outcome);
    let ghost mid = contents(*buffer);
    let ghost came_mid = source.came();
    let ghost at = thread@;
    assert(recv_relation(
        mode,
        metadata@,
        wire.direct,
        wire.polled,
        old(thread)@.log,
        contents(*old(buffer)),
        seen,
        at.log,
        mid,
    ));
    assert(at == old(thread)@.with_log(at.log));
    let r = match outcome {
        Ok(v) => Step::Done(v),
        Err(DesyncError::NoEntryInLog) => Step::Sleep,
        Err(e) => handle_desync(thread, e, source, buffer),
    };
    assert(settled(
        seen,
        wire.direct,
        old(thread)@.with_log(at.log),
        mid,
        r,
        thread@,
        contents(*buffer),
    ));
    proof {
        if outcome is Err {
            if mode == RRMode::Replay {
                lemma_idle_conserves::<DetThreadId, T>(mid, came_mid);
                lemma_conserves_chain(
                    contents(*old(buffer)),
                    came,
                    came_mid,
                    mid,
                    step_message(r),
                    source.came(),
                    contents(*buffer),
                );
            } else {
                assert(source.came().take(came.len() as int + 1) =~= came_mid);
            }
        }
    }
    r
}

/// A receive whose wire is known to give only what another wire may give.
pub proof fn lemma_recv_weaken<T, E: RecvRecordReplay>(
    mode: RRMode,
    metadata: MetadataView,
    narrow: Wire<T, E>,
    wide: Wire<T, E>,
    thread: ThreadView,
    queues: Map<Seq<u32>, Seq<T>>,
    r: Step<Result<T, E>>,
    thread_after: ThreadView,
    after: Map<Seq<u32>, Seq<T>>,
)
    requires
        recv_step(mode, metadata, narrow, thread, queues, r, thread_after, after),
        forall|got: Result<DetMessage<T>, E>| #[trigger] (narrow.direct)(got) ==> (wide.direct)(got),
        forall|poll: Poll<T>| #[trigger] (narrow.polled)(poll) ==> (wide.polled)(poll),
    ensures
        recv_step(mode, metadata, wide, thread, queues, r, thread_after, after),
{
    let (outcome, log, mid) = choose|
        outcome: Result<Result<T, E>, DesyncErrorView>,
        log: LogView,
        mid: Map<Seq<u32>, Seq<T>>,
    |
        {
            &&& recv_relation(
                mode,
                metadata,
                narrow.direct,
                narrow.polled,
                thread.log,
                queues,
                outcome,
                log,
                mid,
            )
            &&& #[trigger] settled(
                outcome,
                narrow.direct,
                thread.with_log(log),
                mid,
                r,
                thread_after,
                after,
            )
        };
    lemma_relation_weaken(mode, metadata, narrow, wide, thread.log, queues, outcome, log, mid);
    assert(settled(
        outcome,
        wide.direct,
        thread.with_log(log),
        mid,
        r,
        thread_after,
        after,
    ));
}

proof fn lemma_relation_weaken<T, E: RecvRecordReplay>(
    mode: RRMode,
    metadata: MetadataView,
    narrow: Wire<T, E>,
    wide: Wire<T, E>,
    log: LogView,
    queues: Map<Seq<u32>, Seq<T>>,
    r: Result<Result<T, E>, DesyncErrorView>,
    log_after: LogView,
    after: Map<Seq<u32>, Seq<T>>,
)
    requires
        recv_relation(
            mode,
            metadata,
            narrow.direct,
            narrow.polled,
            log,
            queues,
            r,
            log_after,
            after,
        ),
        forall|got: Result<DetMessage<T>, E>| #[trigger] (narrow.direct)(got) ==> (wide.direct)(got),
        forall|poll: Poll<T>| #[trigger] (narrow.polled)(poll) ==> (wide.polled)(poll),
    ensures
        recv_relation(mode, metadata, wide.direct, wide.polled, log, queues, r, log_after, after),
{
    if mode == RRMode::Replay && log.remaining.len() > 0 {
        if let Some(Ok(sender)) = E::decode(log.remaining[0].event) {
            assert forall|found: Result<T, DesyncErrorView>| #[trigger]
                recv_expected(queues, sender, narrow.polled, found, after) implies recv_expected(
                queues,
                sender,
                wide.polled,
                found,
                after,
            ) by {
                lemma_expected_weaken(queues, sender, narrow.polled, wide.polled, found, after);
            }
        }
    }
}

/// Messages that are expected of one wire may be expected of a wider one.
pub proof fn lemma_expected_weaken<I: View, T>(
    queues: Map<I::V, Seq<T>>,
    sender: I::V,
    narrow: spec_fn(PollOf<I, T>) -> bool,
    wide: spec_fn(PollOf<I, T>) -> bool,
    r: Result<T, DesyncErrorView>,
    after: Map<I::V, Seq<T>>,
)
    requires
        recv_expected(queues, sender, narrow, r, after),
        forall|poll: PollOf<I, T>| #[trigger] narrow(poll) ==> wide(poll),
    ensures
        recv_expected(queues, sender, wide, r, after),
{
}

} // verus!
