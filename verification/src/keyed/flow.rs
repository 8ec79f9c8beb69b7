//! Receiving and sending with a keyed log.

use vstd::prelude::*;
use std::collections::VecDeque;
use crate::desync::DesyncMode;
use crate::error::RecvErrorRR;
use crate::keyed::record_replay::{
    get_log_entry_with, log, lookup, next_entry, result_view, ChannelIdView, DesyncError,
    DesyncErrorView, FlavorMarker, IndicesView, LogEntry, LogEntryView, RecordMetadata, Recorded,
    RecordedIndices, RecordedView,
};
use crate::keyed::thread::{
    get_det_id, get_event_id, inc_event_id, ContextView, MaybeId, ThreadContext,
};
use crate::mode::RRMode;
use crate::rr::{
    calls_accounted, calls_expected, lemma_expected_weaken, recv_expected, recv_expected_message,
    wait_for, PollOf,
};
use crate::source::{
    conserves, lemma_conserves_chain, lemma_direct_accounted, lemma_idle_conserves,
    lemma_took_some_conserves, lemma_waited, message, outcome_message, passed, waited, Source,
};
use crate::thread_map::{all_empty, contents, queue_of, took_some, ThreadMap};
use crate::wire::Calls;

verus! {

/// Messages that came too early, one queue per sender.
pub type Buffer<T> = ThreadMap<MaybeId, VecDeque<T>>;

/// A message with the thread that sent it, if that is known.
pub type Message<T> = (MaybeId, T);

/// What one attempt to take a message off the wire gave.
pub type KeyedPoll<T> = PollOf<MaybeId, T>;

/// What a wait for a message may end with, as the shared code sees it.
pub open spec fn wait_view<T>(r: Result<T, DesyncError>) -> Result<
    T,
    crate::error::DesyncErrorView,
> {
    match r {
        Ok(msg) => Ok(msg),
        Err(DesyncError::Timedout) => Err(crate::error::DesyncErrorView::Timeout(None)),
        Err(_) => Err(crate::error::DesyncErrorView::Disconnected),
    }
}

/// A wait fails with a timeout or a disconnection only.
pub open spec fn is_wait<T>(r: Result<T, DesyncError>) -> bool {
    match r {
        Ok(_) => true,
        Err(e) => e == DesyncError::Timedout || e == DesyncError::Disconnected,
    }
}

/// Waits for a message from `expected_sender`. Messages from others are kept in the buffer, which
/// is looked at first. Every call of `rr_timeout_recv` is accounted for.
pub fn recv_from_sender<T, F: Calls<Message<T>, RecvErrorRR>>(
    expected_sender: &MaybeId,
    rr_timeout_recv: F,
    buffer: &mut Buffer<T>,
) -> (r: Result<T, DesyncError>)
    requires
        old(buffer).wf(),
        queue_of(contents(*old(buffer)), expected_sender@).len() == 0 ==> rr_timeout_recv.ready(),
    ensures
        final(buffer).wf(),
        is_wait(r),
        recv_expected(
            contents(*old(buffer)),
            expected_sender@,
            |poll: KeyedPoll<T>| rr_timeout_recv.gives(poll),
            wait_view(r),
            contents(*final(buffer)),
        ),
        calls_expected::<MaybeId, T, F>(
            rr_timeout_recv,
            contents(*old(buffer)),
            expected_sender@,
            wait_view(r),
            contents(*final(buffer)),
        ),
        calls_accounted::<MaybeId, T, F>(
            rr_timeout_recv,
            contents(*old(buffer)),
            expected_sender@,
            wait_view(r),
            contents(*final(buffer)),
        ),
{
    match recv_expected_message(expected_sender, rr_timeout_recv, buffer) {
        Ok(msg) => Ok(msg),
        Err(crate::error::DesyncError::Timeout(_)) => Err(DesyncError::Timedout),
        Err(_) => Err(DesyncError::Disconnected),
    }
}

/// Waits for a message from `expected_sender` that the source gives.
pub fn wait_for_sender<T, E, S: Source<MaybeId, T, E>>(
    expected_sender: &MaybeId,
    source: &mut S,
    buffer: &mut Buffer<T>,
) -> (r: Result<T, DesyncError>)
    requires
        old(buffer).wf(),
        queue_of(contents(*old(buffer)), expected_sender@).len() == 0 ==> old(source).can_poll(),
    ensures
        final(buffer).wf(),
        is_wait(r),
        final(source).end() == old(source).end(),
        final(source).can_recv() == old(source).can_recv(),
        final(source).can_poll() == old(source).can_poll(),
        final(source).direct() == old(source).direct(),
        final(source).polled() == old(source).polled(),
        recv_expected(
            contents(*old(buffer)),
            expected_sender@,
            old(source).polled(),
            wait_view(r),
            contents(*final(buffer)),
        ),
        waited(
            contents(*old(buffer)),
            expected_sender@,
            old(source).polled(),
            old(source).came(),
            wait_view(r),
            final(source).came(),
            contents(*final(buffer)),
        ),
{
    match wait_for(expected_sender, source, buffer) {
        Ok(msg) => Ok(msg),
        Err(crate::error::DesyncError::Timeout(_)) => Err(DesyncError::Timedout),
        Err(_) => Err(DesyncError::Disconnected),
    }
}

/// A logged receive: the thread that the message came from, or the error that was seen.
pub enum KeyedReplayed<E> {
    Message(MaybeId),
    Failure(E),
}

/// Ties the errors of a receive operation to the events of the log.
pub trait RecordReplayRecv: Sized {
    spec fn succ_event(sender: Option<Seq<u32>>) -> RecordedView;

    spec fn err_event(self) -> RecordedView;

    /// What a logged event says: the sender or the error. Nothing if it is the event of another
    /// operation.
    spec fn decode(event: RecordedView) -> Option<Result<Option<Seq<u32>>, Self>>;

    /// What was logged is what replay reads.
    proof fn lemma_decode(sender: Option<Seq<u32>>, error: Self)
        ensures
            Self::decode(Self::succ_event(sender)) == Some(Ok::<Option<Seq<u32>>, Self>(sender)),
            Self::decode(error.err_event()) == Some(Err::<Option<Seq<u32>>, Self>(error)),
    ;

    fn recorded_succ(sender_thread: MaybeId) -> (event: Recorded)
        ensures
            event@ == Self::succ_event(sender_thread@),
    ;

    fn recorded_err(&self) -> (event: Recorded)
        ensures
            event@ == (*self).err_event(),
    ;

    /// Reads a logged event. Fails with the event if it is one of another operation.
    fn expected_recorded_events(event: Recorded) -> (r: Result<KeyedReplayed<Self>, Recorded>)
        ensures
            match r {
                Ok(KeyedReplayed::Message(sender)) => Self::decode(event@) == Some(
                    Ok::<Option<Seq<u32>>, Self>(sender@),
                ),
                Ok(KeyedReplayed::Failure(e)) => Self::decode(event@) == Some(
                    Err::<Option<Seq<u32>>, Self>(e),
                ),
                Err(back) => Self::decode(event@) is None && back@ == event@,
            },
    ;
}

/// The event that records what was received.
pub open spec fn keyed_event<T, E: RecordReplayRecv>(got: Result<Message<T>, E>) -> RecordedView {
    match got {
        Ok((sender, _)) => E::succ_event(sender@),
        Err(e) => e.err_event(),
    }
}

/// The message without its sender.
pub open spec fn bare<T, E>(got: Result<Message<T>, E>) -> Result<T, E> {
    match got {
        Ok((_, msg)) => Ok(msg),
        Err(e) => Err(e),
    }
}

/// Removes the sender from a message.
fn strip<T, E>(got: Result<Message<T>, E>) -> (r: Result<T, E>)
    ensures
        r == bare(got),
{
    match got {
        Ok((_, msg)) => Ok(msg),
        Err(e) => Err(e),
    }
}

/// `got` is handed on without its sender.
pub open spec fn handed_on<T, E>(
    got: Result<Message<T>, E>,
    r: Result<Result<T, E>, DesyncErrorView>,
) -> bool {
    r == Ok::<Result<T, E>, DesyncErrorView>(bare(got))
}

/// What a plain receive of a channel may give, and what the attempts of a replay may give.
#[verifier::reject_recursive_types(T)]
#[verifier::reject_recursive_types(E)]
pub struct KeyedWire<T, E> {
    pub direct: spec_fn(Result<Message<T>, E>) -> bool,
    pub polled: spec_fn(KeyedPoll<T>) -> bool,
}

/// How a channel is described in the log.
pub struct Tag {
    pub flavor: FlavorMarker,
    pub id: ChannelIdView,
    pub message_type: Seq<char>,
}

/// How a channel is described in the log.
pub open spec fn tag_of(metadata: RecordMetadata) -> Tag {
    Tag { flavor: metadata.flavor, id: metadata.id@, message_type: metadata.message_type@ }
}

/// The entry of an event of the thread on a channel.
pub open spec fn tagged_entry(thread: ContextView, event: RecordedView, tag: Tag) -> LogEntryView {
    next_entry(thread, event, tag.flavor, tag.message_type, tag.id)
}

/// The mathematical value of an entry, if there is one.
pub open spec fn entry_view(entry: Option<LogEntry>) -> Option<LogEntryView> {
    match entry {
        Some(entry) => Some(entry@),
        None => None,
    }
}

/// A plain receive that is logged.
pub open spec fn logged_recv<T, E: RecordReplayRecv>(
    tag: Tag,
    thread: ContextView,
    got: Result<Message<T>, E>,
    r: Result<Result<T, E>, DesyncErrorView>,
    entry: Option<LogEntryView>,
) -> bool {
    &&& handed_on(got, r)
    &&& entry == Some(tagged_entry(thread, keyed_event(got), tag))
}

/// The event number advances with a message, but not when the wait fails.
pub open spec fn awaited<T, E>(
    found: Result<T, DesyncError>,
    thread: ContextView,
    r: Result<Result<T, E>, DesyncErrorView>,
    thread_after: ContextView,
) -> bool {
    match found {
        Ok(msg) => {
            &&& r == Ok::<Result<T, E>, DesyncErrorView>(Ok(msg))
            &&& thread_after == thread.next_event()
        },
        Err(e) => r == Err::<Result<T, E>, DesyncErrorView>(e@) && thread_after == thread,
    }
}

/// A wait for a message from `sender`.
pub open spec fn keyed_message<T, E>(
    polled: spec_fn(KeyedPoll<T>) -> bool,
    sender: Option<Seq<u32>>,
    thread: ContextView,
    queues: Map<Option<Seq<u32>>, Seq<T>>,
    r: Result<Result<T, E>, DesyncErrorView>,
    thread_after: ContextView,
    after: Map<Option<Seq<u32>>, Seq<T>>,
) -> bool {
    exists|found: Result<T, DesyncError>|
        {
            &&& is_wait(found)
            &&& recv_expected(queues, sender, polled, wait_view(found), after)
            &&& #[trigger] awaited(found, thread, r, thread_after)
        }
}

/// What is received follows the log of a thread with an id.
pub open spec fn keyed_replay<T, E: RecordReplayRecv>(
    tag: Tag,
    polled: spec_fn(KeyedPoll<T>) -> bool,
    found: Result<crate::keyed::record_replay::LoggedView, DesyncErrorView>,
    thread: ContextView,
    queues: Map<Option<Seq<u32>>, Seq<T>>,
    r: Result<Result<T, E>, DesyncErrorView>,
    thread_after: ContextView,
    after: Map<Option<Seq<u32>>, Seq<T>>,
) -> bool {
    match found {
        Err(e) => {
            &&& r == Err::<Result<T, E>, DesyncErrorView>(e)
            &&& thread_after == thread
            &&& after == queues
        },
        Ok(logged) => match E::decode(logged.event) {
            Some(Ok(sender)) => keyed_message(
                polled,
                sender,
                thread,
                queues,
                r,
                thread_after,
                after,
            ),
            Some(Err(e)) => {
                &&& r == Ok::<Result<T, E>, DesyncErrorView>(Err(e))
                &&& thread_after == thread.next_event()
                &&& after == queues
            },
            None => {
                &&& r == Err::<Result<T, E>, DesyncErrorView>(
                    DesyncErrorView::EventMismatch(logged.event, E::succ_event(None)),
                )
                &&& thread_after == thread
                &&& after == queues
            },
        },
    }
}

/// A receive in each of the modes. Threads without an id cannot follow the log.
pub open spec fn keyed_recv<T, E: RecordReplayRecv>(
    mode: RRMode,
    tag: Tag,
    indices: IndicesView,
    wire: KeyedWire<T, E>,
    thread: ContextView,
    queues: Map<Option<Seq<u32>>, Seq<T>>,
    r: Result<Result<T, E>, DesyncErrorView>,
    entry: Option<LogEntryView>,
    thread_after: ContextView,
    after: Map<Option<Seq<u32>>, Seq<T>>,
) -> bool {
    match mode {
        RRMode::Record => {
            &&& after == queues
            &&& thread_after == thread.next_event()
            &&& exists|got: Result<Message<T>, E>|
                (wire.direct)(got) && #[trigger] logged_recv(tag, thread, got, r, entry)
        },
        RRMode::Replay => {
            &&& entry is None
            &&& match thread.det_id {
                None => {
                    &&& after == queues
                    &&& thread_after == thread.next_event()
                    &&& exists|got: Result<Message<T>, E>|
                        (wire.direct)(got) && #[trigger] handed_on(got, r)
                },
                Some(id) => keyed_replay(
                    tag,
                    wire.polled,
                    lookup(indices, id, thread.event_id, Some(tag.flavor), Some(tag.id)),
                    thread,
                    queues,
                    r,
                    thread_after,
                    after,
                ),
            }
        },
        RRMode::NoRR => {
            &&& entry is None
            &&& after == queues
            &&& thread_after == thread
            &&& exists|got: Result<Message<T>, E>|
                (wire.direct)(got) && #[trigger] handed_on(got, r)
        },
    }
}

/// Logs what was received and hands it on.
pub fn log_received<T, E: RecordReplayRecv>(
    thread: &mut ThreadContext,
    metadata: &RecordMetadata,
    got: Result<Message<T>, E>,
) -> (out: (Result<T, E>, LogEntry))
    requires
        old(thread)@.event_id < u32::MAX,
    ensures
        final(thread)@ == old(thread)@.next_event(),
        logged_recv(
            tag_of(*metadata),
            old(thread)@,
            got,
            Ok::<Result<T, E>, DesyncErrorView>(out.0),
            Some(out.1@),
        ),
{
    let (result, recorded) = match got {
        Ok((sender_thread, msg)) => (Ok(msg), E::recorded_succ(sender_thread)),
        Err(e) => {
            let recorded = e.recorded_err();
            (Err(e), recorded)
        },
    };
    let entry = log(thread, recorded, metadata.flavor, &metadata.message_type, &metadata.id);
    (result, entry)
}

/// What a receive takes off the wire. Where the log is followed it hands out one message at most, and
/// keeps all others. Otherwise it makes one call and hands on what came.
pub open spec fn keyed_takes<T>(
    mode: RRMode,
    thread: ContextView,
    queues: Map<Option<Seq<u32>>, Seq<T>>,
    came: Seq<Option<Message<T>>>,
    handed: Option<T>,
    came_after: Seq<Option<Message<T>>>,
    after: Map<Option<Seq<u32>>, Seq<T>>,
) -> bool {
    if mode == RRMode::Replay && thread.det_id is Some {
        conserves(queues, came, handed, came_after, after)
    } else {
        passed(came, handed, came_after) && after == queues
    }
}

/// Receives what the log tells.
fn replay_logged<T, E: RecordReplayRecv, S: Source<MaybeId, T, E>>(
    thread: &mut ThreadContext,
    metadata: &RecordMetadata,
    found: Result<Recorded, DesyncError>,
    source: &mut S,
    buffer: &mut Buffer<T>,
    Ghost(looked): Ghost<Result<crate::keyed::record_replay::LoggedView, DesyncErrorView>>,
) -> (r: Result<Result<T, E>, DesyncError>)
    requires
        old(buffer).wf(),
        old(thread)@.event_id < u32::MAX,
        old(source).can_poll(),
        crate::keyed::record_replay::logged_event(looked, found),
    ensures
        final(buffer).wf(),
        final(source).end() == old(source).end(),
        final(source).can_recv() == old(source).can_recv(),
        final(source).direct() == old(source).direct(),
        keyed_replay(
            tag_of(*metadata),
            old(source).polled(),
            looked,
            old(thread)@,
            contents(*old(buffer)),
            result_view(r),
            final(thread)@,
            contents(*final(buffer)),
        ),
        conserves(
            contents(*old(buffer)),
            old(source).came(),
            outcome_message(r),
            final(source).came(),
            contents(*final(buffer)),
        ),
{
    let ghost came = source.came();
    proof {
        lemma_idle_conserves::<MaybeId, T>(contents(*buffer), came);
    }
    let event = match found {
        Ok(event) => event,
        Err(e) => {
            return Err(e);
        },
    };
    match E::expected_recorded_events(event) {
        Ok(KeyedReplayed::Message(sender)) => {
            let ghost polled = source.polled();
            let found = wait_for_sender(&sender, source, buffer);
            let ghost seen = found;
            proof {
                lemma_waited(
                    contents(*old(buffer)),
                    sender@,
                    polled,
                    came,
                    wait_view(seen),
                    source.came(),
                    contents(*buffer),
                );
            }
            assert(recv_expected(
                contents(*old(buffer)),
                sender@,
                polled,
                wait_view(seen),
                contents(*buffer),
            ));
            let r = match found {
                Ok(msg) => {
                    inc_event_id(thread);
                    Ok(Ok(msg))
                },
                Err(e) => Err(e),
            };
            assert(awaited(seen, old(thread)@, result_view::<Result<T, E>>(r), thread@));
            r
        },
        Ok(KeyedReplayed::Failure(e)) => {
            inc_event_id(thread);
            Ok(Err(e))
        },
        Err(event) => {
            let mock_event = E::recorded_succ(MaybeId::none());
            Err(DesyncError::EventMismatch(event, mock_event))
        },
    }
}

/// Receives a message as the mode demands. The second part of the result is to be appended to the
/// log.
pub fn record_replay_recv<T, E: RecordReplayRecv, S: Source<MaybeId, T, E>>(
    thread: &mut ThreadContext,
    indices: &RecordedIndices,
    metadata: &RecordMetadata,
    source: &mut S,
    buffer: &mut Buffer<T>,
) -> (out: (Result<Result<T, E>, DesyncError>, Option<LogEntry>))
    requires
        old(buffer).wf(),
        indices.wf(),
        old(thread)@.event_id < u32::MAX,
        old(source).can_recv(),
        old(source).can_poll(),
    ensures
        final(buffer).wf(),
        final(source).end() == old(source).end(),
        final(source).can_recv(),
        final(source).direct() == old(source).direct(),
        keyed_recv(
            metadata.mode,
            tag_of(*metadata),
            indices@,
            (KeyedWire { direct: old(source).direct(), polled: old(source).polled() }),
            old(thread)@,
            contents(*old(buffer)),
            result_view(out.0),
            entry_view(out.1),
            final(thread)@,
            contents(*final(buffer)),
        ),
        keyed_takes(
            metadata.mode,
            old(thread)@,
            contents(*old(buffer)),
            old(source).came(),
            outcome_message(out.0),
            final(source).came(),
            contents(*final(buffer)),
        ),
{
    match metadata.mode {
        RRMode::Record => {
            let got = source.recv();
            let (result, entry) = log_received(thread, metadata, got);
            (Ok(result), Some(entry))
        },
        RRMode::Replay => {
            match get_det_id(thread).id {
                None => {
                    inc_event_id(thread);
                    let got = source.recv();
                    assert(handed_on(got, Ok(bare(got))));
                    (Ok(strip(got)), None)
                },
                Some(det_id) => {
                    let ghost looked = lookup(
                        indices@,
                        det_id@,
                        thread@.event_id,
                        Some(metadata.flavor),
                        Some(metadata.id@),
                    );
                    let event_id = get_event_id(thread);
                    let found = get_log_entry_with(
                        indices,
                        det_id,
                        event_id,
                        metadata.flavor,
                        &metadata.id,
                    );
                    let r = replay_logged(thread, metadata, found, source, buffer, Ghost(looked));
                    (r, None)
                },
            }
        },
        RRMode::NoRR => {
            let got = source.recv();
            assert(handed_on(got, Ok(bare(got))));
            (Ok(strip(got)), None)
        },
    }
}

/// How far an operation came.
pub enum KeyedStep<V> {
    Done(V),
    /// The thread ran off the end of its log. It has to sleep until the program is
    /// desynchronized.
    Sleep,
    /// The replay cannot go on.
    Panic(DesyncError),
}

/// What the thread does on the desynchronization `desync`: in the mode `Panic` it gives up. In the
/// mode `KeepGoing` the event is counted, and any message that was kept in the queues is taken, or
/// else one that `direct` allows.
pub open spec fn keyed_desync<T, E>(
    desync: DesyncErrorView,
    direct: spec_fn(Result<Message<T>, E>) -> bool,
    thread: ContextView,
    queues: Map<Option<Seq<u32>>, Seq<T>>,
    r: KeyedStep<Result<T, E>>,
    thread_after: ContextView,
    after: Map<Option<Seq<u32>>, Seq<T>>,
) -> bool {
    match thread.desync_mode {
        DesyncMode::Panic => {
            &&& r matches KeyedStep::Panic(e)
            &&& e@ == desync
            &&& thread_after == thread
            &&& after == queues
        },
        DesyncMode::KeepGoing => {
            &&& thread_after == thread.marked().next_event()
            &&& if all_empty(queues) {
                &&& after == queues
                &&& exists|got: Result<Message<T>, E>| #[trigger]
                    direct(got) && r == KeyedStep::Done(bare(got))
            } else {
                &&& r matches KeyedStep::Done(Ok(msg))
                &&& took_some(queues, msg, after)
            }
        },
    }
}

/// Notes that the program is desynchronized. Tells whether this is news: sleeping threads are
/// then to be woken up.
pub fn mark_program_as_desynced(thread: &mut ThreadContext) -> (news: bool)
    ensures
        final(thread)@ == old(thread)@.marked(),
        news == !old(thread)@.desynced,
{
    if !thread.desynced {
        thread.desynced = true;
        true
    } else {
        false
    }
}

/// Takes any message that is kept, or else one from the channel.
fn desync_get_next_entry<T, E, S: Source<MaybeId, T, E>>(
    source: &mut S,
    buffer: &mut Buffer<T>,
) -> (r: Result<T, E>)
    requires
        old(buffer).wf(),
        old(source).can_recv(),
    ensures
        final(buffer).wf(),
        final(source).end() == old(source).end(),
        final(source).can_recv(),
        if all_empty(contents(*old(buffer))) {
            &&& *final(buffer) == *old(buffer)
            &&& exists|got: Result<Message<T>, E>| #[trigger]
                (old(source).direct())(got) && r == bare(got)
        } else {
            &&& r matches Ok(msg)
            &&& took_some(contents(*old(buffer)), msg, contents(*final(buffer)))
        },
        conserves(
            contents(*old(buffer)),
            old(source).came(),
            message(r),
            final(source).came(),
            contents(*final(buffer)),
        ),
{
    let ghost queues = contents(*buffer);
    let ghost came = source.came();
    match buffer.pop_any_message() {
        Some(msg) => {
            proof {
                lemma_took_some_conserves::<MaybeId, T>(queues, came, msg, contents(*buffer));
            }
            Ok(msg)
        },
        None => {
            let got = source.recv();
            proof {
                lemma_direct_accounted(queues, came, got);
            }
            strip(got)
        },
    }
}

/// The message that a step hands on, if any.
pub open spec fn keyed_step_message<T, E>(r: KeyedStep<Result<T, E>>) -> Option<T> {
    match r {
        KeyedStep::Done(v) => message(v),
        _ => None,
    }
}

/// Goes on after a desynchronization, as the thread's mode demands.
pub fn handle_desync<T, E, S: Source<MaybeId, T, E>>(
    thread: &mut ThreadContext,
    desync: DesyncError,
    source: &mut S,
    buffer: &mut Buffer<T>,
) -> (r: KeyedStep<Result<T, E>>)
    requires
        old(buffer).wf(),
        old(thread)@.event_id < u32::MAX,
        old(source).can_recv(),
    ensures
        final(buffer).wf(),
        final(source).end() == old(source).end(),
        final(source).can_recv(),
        keyed_desync(
            desync@,
            old(source).direct(),
            old(thread)@,
            contents(*old(buffer)),
            r,
            final(thread)@,
            contents(*final(buffer)),
        ),
        conserves(
            contents(*old(buffer)),
            old(source).came(),
            keyed_step_message(r),
            final(source).came(),
            contents(*final(buffer)),
        ),
{
    match thread.desync_mode {
        DesyncMode::KeepGoing => {
            mark_program_as_desynced(thread);
            inc_event_id(thread);
            let r = desync_get_next_entry(source, buffer);
            KeyedStep::Done(r)
        },
        DesyncMode::Panic => {
            proof {
                lemma_idle_conserves::<MaybeId, T>(contents(*buffer), source.came());
            }
            KeyedStep::Panic(desync)
        },
    }
}

/// What becomes of the outcome of a receive.
pub open spec fn keyed_settled<T, E>(
    outcome: Result<Result<T, E>, DesyncErrorView>,
    direct: spec_fn(Result<Message<T>, E>) -> bool,
    thread: ContextView,
    queues: Map<Option<Seq<u32>>, Seq<T>>,
    r: KeyedStep<Result<T, E>>,
    thread_after: ContextView,
    after: Map<Option<Seq<u32>>, Seq<T>>,
) -> bool {
    match outcome {
        Ok(v) => r == KeyedStep::Done(v) && thread_after == thread && after == queues,
        Err(DesyncErrorView::NoEntryInLog(_, _)) => r is Sleep && thread_after == thread && after
            == queues,
        Err(e) => keyed_desync(e, direct, thread, queues, r, thread_after, after),
    }
}

/// A receive, together with what the thread does on a desynchronization.
pub open spec fn keyed_recv_step<T, E: RecordReplayRecv>(
    mode: RRMode,
    tag: Tag,
    indices: IndicesView,
    wire: KeyedWire<T, E>,
    thread: ContextView,
    queues: Map<Option<Seq<u32>>, Seq<T>>,
    r: KeyedStep<Result<T, E>>,
    entry: Option<LogEntryView>,
    thread_after: ContextView,
    after: Map<Option<Seq<u32>>, Seq<T>>,
) -> bool {
    exists|
        outcome: Result<Result<T, E>, DesyncErrorView>,
        mid: ContextView,
        kept: Map<Option<Seq<u32>>, Seq<T>>,
    |
        {
            &&& keyed_recv(mode, tag, indices, wire, thread, queues, outcome, entry, mid, kept)
            &&& #[trigger] keyed_settled(
                outcome,
                wire.direct,
                mid,
                kept,
                r,
                thread_after,
                after,
            )
        }
}

/// Receives a message as the mode demands, and handles a desynchronization. The second part of the
/// result is to be appended to the log.
pub fn receive<T, E: RecordReplayRecv, S: Source<MaybeId, T, E>>(
    thread: &mut ThreadContext,
    indices: &RecordedIndices,
    metadata: &RecordMetadata,
    source: &mut S,
    buffer: &mut Buffer<T>,
) -> (out: (KeyedStep<Result<T, E>>, Option<LogEntry>))
    requires
        old(buffer).wf(),
        indices.wf(),
        old(thread)@.event_id < u32::MAX,
        old(source).can_recv(),
        old(source).can_poll(),
    ensures
        final(buffer).wf(),
        final(source).end() == old(source).end(),
        final(source).can_recv(),
        keyed_recv_step(
            metadata.mode,
            tag_of(*metadata),
            indices@,
            (KeyedWire { direct: old(source).direct(), polled: old(source).polled() }),
            old(thread)@,
            contents(*old(buffer)),
            out.0,
            entry_view(out.1),
            final(thread)@,
            contents(*final(buffer)),
        ),
        keyed_takes(
            metadata.mode,
            old(thread)@,
            contents(*old(buffer)),
            old(source).came(),
            keyed_step_message(out.0),
            final(source).came(),
            contents(*final(buffer)),
        ),
{
    let ghost wire = KeyedWire { direct: source.direct(), polled: source.polled() };
    let ghost came = source.came();
    let (outcome, entry) = record_replay_recv(thread, indices, metadata, source, buffer);
    let ghost seen = result_view(outcome);
    let ghost mid = thread@;
    let ghost kept = contents(*buffer);
    let ghost came_mid = source.came();
    assert(keyed_recv(
        metadata.mode,
        tag_of(*metadata),
        indices@,
        wire,
        old(thread)@,
        contents(*old(buffer)),
        seen,
        entry_view(entry),
        mid,
        kept,
    ));
    let r = match outcome {
        Ok(v) => KeyedStep::Done(v),
        Err(DesyncError::NoEntryInLog(_, _)) => KeyedStep::Sleep,
        Err(e) => handle_desync(thread, e, source, buffer),
    };
    assert(keyed_settled(seen, wire.direct, mid, kept, r, thread@, contents(*buffer)));
    proof {
        if outcome is Err {
            lemma_idle_conserves::<MaybeId, T>(kept, came_mid);
            lemma_conserves_chain(
                contents(*old(buffer)),
                came,
                came_mid,
                kept,
                keyed_step_message(r),
                source.came(),
                contents(*buffer),
            );
        }
    }
    (r, entry)
}

/// A desynchronization on a channel that gives only what another channel may give.
pub proof fn lemma_keyed_desync_weaken<T, E>(
    desync: DesyncErrorView,
    narrow: spec_fn(Result<Message<T>, E>) -> bool,
    wide: spec_fn(Result<Message<T>, E>) -> bool,
    thread: ContextView,
    queues: Map<Option<Seq<u32>>, Seq<T>>,
    r: KeyedStep<Result<T, E>>,
    thread_after: ContextView,
    after: Map<Option<Seq<u32>>, Seq<T>>,
)
    requires
        keyed_desync(desync, narrow, thread, queues, r, thread_after, after),
        forall|got: Result<Message<T>, E>| #[trigger] narrow(got) ==> wide(got),
    ensures
        keyed_desync(desync, wide, thread, queues, r, thread_after, after),
{
}

proof fn lemma_keyed_recv_weaken<T, E: RecordReplayRecv>(
    mode: RRMode,
    tag: Tag,
    indices: IndicesView,
    narrow: KeyedWire<T, E>,
    wide: KeyedWire<T, E>,
    thread: ContextView,
    queues: Map<Option<Seq<u32>>, Seq<T>>,
    r: Result<Result<T, E>, DesyncErrorView>,
    entry: Option<LogEntryView>,
    thread_after: ContextView,
    after: Map<Option<Seq<u32>>, Seq<T>>,
)
    requires
        keyed_recv(mode, tag, indices, narrow, thread, queues, r, entry, thread_after, after),
        forall|got: Result<Message<T>, E>| #[trigger] (narrow.direct)(got) ==> (wide.direct)(got),
        forall|poll: KeyedPoll<T>| #[trigger] (narrow.polled)(poll) ==> (wide.polled)(poll),
    ensures
        keyed_recv(mode, tag, indices, wide, thread, queues, r, entry, thread_after, after),
{
    if mode == RRMode::Replay {
        if let Some(id) = thread.det_id {
            if let Ok(logged) = lookup(
                indices,
                id,
                thread.event_id,
                Some(tag.flavor),
                Some(tag.id),
            ) {
                if let Some(Ok(sender)) = E::decode(logged.event) {
                    assert forall|found: Result<T, crate::error::DesyncErrorView>| #[trigger]
                        recv_expected(
                            queues,
                            sender,
                            narrow.polled,
                            found,
                            after,
                        ) implies recv_expected(queues, sender, wide.polled, found, after) by {
                        lemma_expected_weaken::<MaybeId, T>(
                            queues,
                            sender,
                            narrow.polled,
                            wide.polled,
                            found,
                            after,
                        );
                    }
                }
            }
        }
    }
}

/// A receive whose wire is known to give only what another wire may give.
pub proof fn lemma_keyed_weaken<T, E: RecordReplayRecv>(
    mode: RRMode,
    tag: Tag,
    indices: IndicesView,
    narrow: KeyedWire<T, E>,
    wide: KeyedWire<T, E>,
    thread: ContextView,
    queues: Map<Option<Seq<u32>>, Seq<T>>,
    r: KeyedStep<Result<T, E>>,
    entry: Option<LogEntryView>,
    thread_after: ContextView,
    after: Map<Option<Seq<u32>>, Seq<T>>,
)
    requires
        keyed_recv_step(mode, tag, indices, narrow, thread, queues, r, entry, thread_after, after),
        forall|got: Result<Message<T>, E>| #[trigger] (narrow.direct)(got) ==> (wide.direct)(got),
        forall|poll: KeyedPoll<T>| #[trigger] (narrow.polled)(poll) ==> (wide.polled)(poll),
    ensures
        keyed_recv_step(mode, tag, indices, wide, thread, queues, r, entry, thread_after, after),
{
    let (outcome, mid, kept) = choose|
        outcome: Result<Result<T, E>, DesyncErrorView>,
        mid: ContextView,
        kept: Map<Option<Seq<u32>>, Seq<T>>,
    |
        {
            &&& keyed_recv(mode, tag, indices, narrow, thread, queues, outcome, entry, mid, kept)
            &&& #[trigger] keyed_settled(
                outcome,
                narrow.direct,
                mid,
                kept,
                r,
                thread_after,
                after,
            )
        };
    lemma_keyed_recv_weaken(
        mode,
        tag,
        indices,
        narrow,
        wide,
        thread,
        queues,
        outcome,
        entry,
        mid,
        kept,
    );
    assert(keyed_settled(outcome, wide.direct, mid, kept, r, thread_after, after));
}

} // verus!
