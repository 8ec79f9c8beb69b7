//! Crossbeam channels with a strict replay.
//!
//! Events are found in the log by their thread and their number. A receive that does not meet the
//! event that was recorded is given up, and a message that was recorded is waited for, however long
//! it takes.

use vstd::prelude::*;
use std::time::{Duration, Instant};
use crate::crossbeam::{marker, send_result, ChannelKind};
use crate::desync::{without_sender, DetMessage};
use crate::detthread::DetThreadId;
use crate::error::{RecvErrorDef, RecvErrorRR, RecvTimeoutErrorDef, SendError, TryRecvErrorDef};
use crate::laws::{
    delivered, handed_out, is_run, is_wait, law_idle_operation_is_a_wait,
    law_replay_delivers_record, lemma_stash, polled_from, recorded_from, repeats, run_polled, Got,
    Wait,
};
use crate::mode::RRMode;
use crate::recordlog::ChannelVariant;
use crate::rr::{stash, Poll};
use crate::source::{
    accounted, balanced, came_from, conserves, hands_out, lemma_idle_conserves, lemma_none_taken,
    lemma_stash_came, not_from, out_of, outcome_message, passed, since, some_out, takes,
};
use crate::thread_map::{contents, dequeue, queue_of, BufferedValues, SenderKey, ThreadMap};
use crate::wire::{
    crossbeam_after, crossbeam_after_gave, crossbeam_clone, crossbeam_clone_gave, crossbeam_never,
    crossbeam_never_gave, crossbeam_send, crossbeam_send_gave, crossbeam_unbounded,
    crossbeam_unbounded_gave, took, Came,
};

verus! {

/// How a blocking receive ended.
#[derive(Debug, PartialEq, Eq)]
pub enum ReceiveEvent {
    Success { sender_thread: DetThreadId },
    RecvError,
}

/// How a receive that does not wait ended.
#[derive(Debug, PartialEq, Eq)]
pub enum TryRecvEvent {
    Success { sender_thread: DetThreadId },
    Empty,
    Disconnected,
}

/// How a receive with a timeout ended.
#[derive(Debug, PartialEq, Eq)]
pub enum RecvTimeoutEvent {
    Success { sender_thread: DetThreadId },
    Timedout,
    Disconnected,
}

/// An event of the log.
#[derive(Debug, PartialEq, Eq)]
pub enum RecordedEvent {
    Receive(ReceiveEvent),
    TryRecv(TryRecvEvent),
    RecvTimeout(RecvTimeoutEvent),
}

/// Mathematical value of a `RecordedEvent`: the operation, and the sender or the error.
pub enum EventView {
    Receive(Result<Seq<u32>, RecvErrorDef>),
    TryRecv(Result<Seq<u32>, TryRecvErrorDef>),
    RecvTimeout(Result<Seq<u32>, RecvTimeoutErrorDef>),
}

impl View for RecordedEvent {
    type V = EventView;

    open spec fn view(&self) -> EventView {
        match *self {
            RecordedEvent::Receive(event) => EventView::Receive(
                match event {
                    ReceiveEvent::Success { sender_thread } => Ok(sender_thread@),
                    ReceiveEvent::RecvError => Err(RecvErrorDef {  }),
                },
            ),
            RecordedEvent::TryRecv(event) => EventView::TryRecv(
                match event {
                    TryRecvEvent::Success { sender_thread } => Ok(sender_thread@),
                    TryRecvEvent::Empty => Err(TryRecvErrorDef::Empty),
                    TryRecvEvent::Disconnected => Err(TryRecvErrorDef::Disconnected),
                },
            ),
            RecordedEvent::RecvTimeout(event) => EventView::RecvTimeout(
                match event {
                    RecvTimeoutEvent::Success { sender_thread } => Ok(sender_thread@),
                    RecvTimeoutEvent::Timedout => Err(RecvTimeoutErrorDef::Timeout),
                    RecvTimeoutEvent::Disconnected => Err(RecvTimeoutErrorDef::Disconnected),
                },
            ),
        }
    }
}

impl Clone for RecordedEvent {
    fn clone(&self) -> (copy: RecordedEvent)
        ensures
            copy@ == self@,
    {
        match self {
            RecordedEvent::Receive(event) => RecordedEvent::Receive(
                match event {
                    ReceiveEvent::Success { sender_thread } => ReceiveEvent::Success {
                        sender_thread: sender_thread.clone(),
                    },
                    ReceiveEvent::RecvError => ReceiveEvent::RecvError,
                },
            ),
            RecordedEvent::TryRecv(event) => RecordedEvent::TryRecv(
                match event {
                    TryRecvEvent::Success { sender_thread } => TryRecvEvent::Success {
                        sender_thread: sender_thread.clone(),
                    },
                    TryRecvEvent::Empty => TryRecvEvent::Empty,
                    TryRecvEvent::Disconnected => TryRecvEvent::Disconnected,
                },
            ),
            RecordedEvent::RecvTimeout(event) => RecordedEvent::RecvTimeout(
                match event {
                    RecvTimeoutEvent::Success { sender_thread } => RecvTimeoutEvent::Success {
                        sender_thread: sender_thread.clone(),
                    },
                    RecvTimeoutEvent::Timedout => RecvTimeoutEvent::Timedout,
                    RecvTimeoutEvent::Disconnected => RecvTimeoutEvent::Disconnected,
                },
            ),
        }
    }
}

/// Where an event stands in the log: its thread, and its number among the events of that thread.
#[derive(Debug, PartialEq, Eq)]
pub struct EventKey {
    pub det_id: DetThreadId,
    pub select_id: u32,
}

impl View for EventKey {
    type V = (Seq<u32>, u32);

    open spec fn view(&self) -> (Seq<u32>, u32) {
        (self.det_id@, self.select_id)
    }
}

impl SenderKey for EventKey {
    fn same(&self, other: &EventKey) -> (equal: bool) {
        self.select_id == other.select_id && self.det_id.same_path(&other.det_id)
    }

    fn copy(&self) -> (key: EventKey) {
        EventKey { det_id: self.det_id.clone(), select_id: self.select_id }
    }
}

/// An event with the variant of the channel that it happened on.
#[derive(Debug, PartialEq, Eq)]
pub struct LoggedEvent {
    pub event: RecordedEvent,
    pub flavor: ChannelVariant,
}

/// The log of a run.
pub type EventLog = ThreadMap<EventKey, LoggedEvent>;

/// A thread with its id and the number of its next event.
pub struct EventThread {
    pub det_id: DetThreadId,
    pub select_id: u32,
}

/// Mathematical value of an `EventThread`.
pub struct EventThreadView {
    pub det_id: Seq<u32>,
    pub select_id: u32,
}

impl View for EventThread {
    type V = EventThreadView;

    open spec fn view(&self) -> EventThreadView {
        EventThreadView { det_id: self.det_id@, select_id: self.select_id }
    }
}

impl EventThreadView {
    /// Where the next event stands in the log.
    pub open spec fn key(self) -> (Seq<u32>, u32) {
        (self.det_id, self.select_id)
    }

    /// The thread after one more event.
    pub open spec fn next(self) -> EventThreadView {
        EventThreadView { select_id: (self.select_id + 1) as u32, ..self }
    }
}

/// Why a replay gives up.
#[derive(Debug, PartialEq, Eq)]
pub enum Mismatch {
    /// The log holds no such event.
    NoEntry,
    /// The channel was of the first variant, and is of the second.
    Flavor(ChannelVariant, ChannelVariant),
    /// The event is one of another operation.
    Event(RecordedEvent),
    /// Nothing came from the sender in 2^64 - 1 receives.
    Lost,
}

/// Mathematical value of a `Mismatch`.
pub enum MismatchView {
    NoEntry,
    Flavor(ChannelVariant, ChannelVariant),
    Event(EventView),
    Lost,
}

impl View for Mismatch {
    type V = MismatchView;

    open spec fn view(&self) -> MismatchView {
        match *self {
            Mismatch::NoEntry => MismatchView::NoEntry,
            Mismatch::Flavor(logged, actual) => MismatchView::Flavor(logged, actual),
            Mismatch::Event(event) => MismatchView::Event(event@),
            Mismatch::Lost => MismatchView::Lost,
        }
    }
}

/// The error of a kind of receive, which tells how that receive is logged.
pub trait StrictRecv: Copy {
    /// The event of a receive that got a message from a sender, or failed.
    spec fn event_view(outcome: Result<Seq<u32>, Self>) -> EventView;

    /// Different outcomes are logged as different events.
    proof fn lemma_injective(one: Result<Seq<u32>, Self>, other: Result<Seq<u32>, Self>)
        requires
            Self::event_view(one) == Self::event_view(other),
        ensures
            one == other,
    ;

    fn event(outcome: Result<DetThreadId, Self>) -> (event: RecordedEvent)
        ensures
            event@ == Self::event_view(sender_view(outcome)),
    ;

    /// The outcome that was logged, or the event if it is one of another operation.
    fn outcome(event: RecordedEvent) -> (r: Result<Result<DetThreadId, Self>, RecordedEvent>)
        ensures
            match r {
                Ok(outcome) => event@ == Self::event_view(sender_view(outcome)),
                Err(back) => {
                    &&& back == event
                    &&& forall|outcome: Result<Seq<u32>, Self>| #[trigger]
                        Self::event_view(outcome) != event@
                },
            },
    ;
}

/// The path of a sender.
pub open spec fn sender_view<E>(outcome: Result<DetThreadId, E>) -> Result<Seq<u32>, E> {
    match outcome {
        Ok(id) => Ok(id@),
        Err(e) => Err(e),
    }
}

/// The sender of what was received.
pub open spec fn sender_of<T, E>(got: Result<DetMessage<T>, E>) -> Result<Seq<u32>, E> {
    match got {
        Ok((id, _)) => Ok(id@),
        Err(e) => Err(e),
    }
}

impl StrictRecv for RecvErrorDef {
    open spec fn event_view(outcome: Result<Seq<u32>, RecvErrorDef>) -> EventView {
        EventView::Receive(outcome)
    }

    proof fn lemma_injective(
        one: Result<Seq<u32>, RecvErrorDef>,
        other: Result<Seq<u32>, RecvErrorDef>,
    ) {
    }

    fn event(outcome: Result<DetThreadId, RecvErrorDef>) -> (event: RecordedEvent) {
        RecordedEvent::Receive(
            match outcome {
                Ok(sender_thread) => ReceiveEvent::Success { sender_thread },
                Err(_) => ReceiveEvent::RecvError,
            },
        )
    }

    fn outcome(event: RecordedEvent) -> (r: Result<
        Result<DetThreadId, RecvErrorDef>,
        RecordedEvent,
    >) {
        match event {
            RecordedEvent::Receive(ReceiveEvent::Success { sender_thread }) => Ok(
                Ok(sender_thread),
            ),
            RecordedEvent::Receive(ReceiveEvent::RecvError) => Ok(Err(RecvErrorDef {  })),
            event => Err(event),
        }
    }
}

impl StrictRecv for TryRecvErrorDef {
    open spec fn event_view(outcome: Result<Seq<u32>, TryRecvErrorDef>) -> EventView {
        EventView::TryRecv(outcome)
    }

    proof fn lemma_injective(
        one: Result<Seq<u32>, TryRecvErrorDef>,
        other: Result<Seq<u32>, TryRecvErrorDef>,
    ) {
    }

    fn event(outcome: Result<DetThreadId, TryRecvErrorDef>) -> (event: RecordedEvent) {
        RecordedEvent::TryRecv(
            match outcome {
                Ok(sender_thread) => TryRecvEvent::Success { sender_thread },
                Err(TryRecvErrorDef::Empty) => TryRecvEvent::Empty,
                Err(TryRecvErrorDef::Disconnected) => TryRecvEvent::Disconnected,
            },
        )
    }

    fn outcome(event: RecordedEvent) -> (r: Result<
        Result<DetThreadId, TryRecvErrorDef>,
        RecordedEvent,
    >) {
        match event {
            RecordedEvent::TryRecv(TryRecvEvent::Success { sender_thread }) => Ok(
                Ok(sender_thread),
            ),
            RecordedEvent::TryRecv(TryRecvEvent::Empty) => Ok(Err(TryRecvErrorDef::Empty)),
            RecordedEvent::TryRecv(TryRecvEvent::Disconnected) => Ok(
                Err(TryRecvErrorDef::Disconnected),
            ),
            event => Err(event),
        }
    }
}

impl StrictRecv for RecvTimeoutErrorDef {
    open spec fn event_view(outcome: Result<Seq<u32>, RecvTimeoutErrorDef>) -> EventView {
        EventView::RecvTimeout(outcome)
    }

    proof fn lemma_injective(
        one: Result<Seq<u32>, RecvTimeoutErrorDef>,
        other: Result<Seq<u32>, RecvTimeoutErrorDef>,
    ) {
    }

    fn event(outcome: Result<DetThreadId, RecvTimeoutErrorDef>) -> (event: RecordedEvent) {
        RecordedEvent::RecvTimeout(
            match outcome {
                Ok(sender_thread) => RecvTimeoutEvent::Success { sender_thread },
                Err(RecvTimeoutErrorDef::Timeout) => RecvTimeoutEvent::Timedout,
                Err(RecvTimeoutErrorDef::Disconnected) => RecvTimeoutEvent::Disconnected,
            },
        )
    }

    fn outcome(event: RecordedEvent) -> (r: Result<
        Result<DetThreadId, RecvTimeoutErrorDef>,
        RecordedEvent,
    >) {
        match event {
            RecordedEvent::RecvTimeout(RecvTimeoutEvent::Success { sender_thread }) => Ok(
                Ok(sender_thread),
            ),
            RecordedEvent::RecvTimeout(RecvTimeoutEvent::Timedout) => Ok(
                Err(RecvTimeoutErrorDef::Timeout),
            ),
            RecordedEvent::RecvTimeout(RecvTimeoutEvent::Disconnected) => Ok(
                Err(RecvTimeoutErrorDef::Disconnected),
            ),
            event => Err(event),
        }
    }
}

/// The sending end of a channel.
#[verifier::reject_recursive_types(T)]
pub struct Sender<T> {
    pub sender: ::crossbeam_channel::Sender<DetMessage<T>>,
    pub mode: RRMode,
}

impl<T> Sender<T> {
    /// Sends a message, tagged with the id of the thread in every mode.
    pub fn send(&self, thread: &EventThread, msg: T) -> (r: Result<(), SendError<T>>)
        ensures
            sent(self.sender, thread@.det_id, msg, r),
            r matches Err(e) ==> e.0 == msg,
    {
        let det_id = thread.det_id.clone();
        let ghost id = det_id;
        let send = crossbeam_send::<DetMessage<T>>;
        let raw = send(&self.sender, (det_id, msg));
        assert(crossbeam_send_gave(self.sender, (id, msg), raw));
        assert(send_gave(self.sender, id, msg, raw));
        match raw {
            Ok(_) => Ok(()),
            Err(back) => Err(SendError(back.1)),
        }
    }

    /// Another sending end of the same channel.
    pub fn clone(&self) -> (copy: Sender<T>)
        ensures
            copy.mode == self.mode,
            crossbeam_clone_gave(self.sender, copy.sender),
    {
        let f = crossbeam_clone::<DetMessage<T>>;
        Sender { sender: f(&self.sender), mode: self.mode }
    }
}

/// A send of `msg`, tagged with `id`, gave `raw`.
pub open spec fn send_gave<T>(
    sender: ::crossbeam_channel::Sender<DetMessage<T>>,
    id: DetThreadId,
    msg: T,
    raw: Result<(), DetMessage<T>>,
) -> bool {
    crossbeam_send_gave(sender, (id, msg), raw)
}

/// A send of `msg`, tagged with the path `det_id`, gave `r`.
pub open spec fn sent<T>(
    sender: ::crossbeam_channel::Sender<DetMessage<T>>,
    det_id: Seq<u32>,
    msg: T,
    r: Result<(), SendError<T>>,
) -> bool {
    exists|id: DetThreadId, raw: Result<(), DetMessage<T>>|
        id@ == det_id && #[trigger] send_gave(sender, id, msg, raw) && r == send_result(raw)
}

/// The receiving end of a channel.
#[verifier::reject_recursive_types(T)]
pub struct Receiver<T> {
    /// Messages that came before those that the replay had to wait for.
    pub buffer: BufferedValues<T>,
    pub receiver: ChannelKind<T>,
    pub mode: RRMode,
    /// The record of all that was received.
    pub came: Option<Came<DetThreadId, T>>,
}

/// What a blocking receive brings to a replay, which is not told of disconnected channels.
pub open spec fn arrival<T>(got: Result<DetMessage<T>, RecvErrorDef>) -> Poll<T> {
    match got {
        Ok(m) => Ok(m),
        Err(_) => Err(RecvErrorRR::Disconnected),
    }
}

/// A blocking receive of the thread `det_id` may bring `poll`.
pub open spec fn arrives<T>(kind: ChannelKind<T>, det_id: Seq<u32>, poll: Poll<T>) -> bool {
    exists|got: Result<DetMessage<T>, RecvErrorDef>| #[trigger]
        kind.recv_gives(det_id, got) && poll == arrival(got)
}

/// `poll` is a message from `sender`.
pub open spec fn is_from<T>(poll: Poll<T>, sender: Seq<u32>) -> bool {
    match poll {
        Ok((id, _)) => id@ == sender,
        Err(_) => false,
    }
}

/// Where a message from `sender` was kept, it comes first and nothing is received. Otherwise `polls`
/// came, of which only the last is a message from `sender`. Messages of all others are kept, and a
/// disconnected channel is ignored. After 2^64 - 1 receives the wait ends without a message.
pub open spec fn strict_wait<T>(
    queues: Map<Seq<u32>, Seq<T>>,
    sender: Seq<u32>,
    polls: Seq<Poll<T>>,
    r: Option<T>,
    after: Map<Seq<u32>, Seq<T>>,
) -> bool {
    if queue_of(queues, sender).len() > 0 {
        &&& polls.len() == 0
        &&& r == Some(queue_of(queues, sender)[0])
        &&& after == dequeue(queues, sender)
    } else {
        &&& polls.len() > 0
        &&& forall|i: int| 0 <= i < polls.len() - 1 ==> !is_from(#[trigger] polls[i], sender)
        &&& match polls.last() {
            Ok((id, msg)) if id@ == sender => {
                &&& r == Some(msg)
                &&& after == stash(queues, polls.drop_last())
            },
            _ => {
                &&& polls.len() == u64::MAX
                &&& r is None
                &&& after == stash(queues, polls)
            },
        }
    }
}

/// A wait of the thread `det_id` for a message from `sender`, with what its channel may give.
pub open spec fn waited<T>(
    before: Receiver<T>,
    det_id: Seq<u32>,
    sender: Seq<u32>,
    r: Option<T>,
    after: Map<Seq<u32>, Seq<T>>,
) -> bool {
    exists|polls: Seq<Poll<T>>|
        {
            &&& #[trigger] strict_wait(before.queues(), sender, polls, r, after)
            &&& forall|i: int|
                0 <= i < polls.len() ==> arrives(before.receiver, det_id, #[trigger] polls[i])
        }
}

/// Such a wait accounts for all that its receives took off the channel.
pub proof fn lemma_strict_accounted<T>(
    queues: Map<Seq<u32>, Seq<T>>,
    sender: Seq<u32>,
    polls: Seq<Poll<T>>,
    r: Option<T>,
    after: Map<Seq<u32>, Seq<T>>,
)
    requires
        strict_wait(queues, sender, polls, r, after),
    ensures
        accounted(queues, takes(polls), handed_from(sender, r), after),
{
    assert forall|from: Seq<u32>| #[trigger]
        balanced(queues, takes(polls), handed_from(sender, r), after, from) by {
        let handed = out_of(handed_from(sender, r), from);
        if queue_of(queues, sender).len() > 0 {
            assert(handed + queue_of(after, from) =~= queue_of(queues, from) + came_from(
                takes(polls),
                from,
            ));
        } else {
            let earlier = polls.drop_last();
            assert forall|i: int| 0 <= i < earlier.len() implies not_from(
                #[trigger] earlier[i],
                sender,
            ) by {
                assert(!is_from(polls[i], sender));
            }
            lemma_stash_came(queues, earlier, from);
            lemma_stash_came(queues, polls, from);
            lemma_none_taken(earlier, sender);
            assert(takes(polls).drop_last() =~= takes(earlier));
            assert(takes(polls).last() == took(polls.last()));
            assert(handed + queue_of(after, from) =~= queue_of(queues, from) + came_from(
                takes(polls),
                from,
            ));
        }
    }
}

/// The message from `sender` that is handed out, if any.
pub open spec fn handed_from<T>(sender: Seq<u32>, r: Option<T>) -> Option<(Seq<u32>, T)> {
    match r {
        Some(msg) => Some((sender, msg)),
        None => None,
    }
}

/// What a receive takes off the channel in each of the modes. While recording it makes one receive and
/// hands on what came. While replaying it hands out one message at most, and keeps all others.
pub open spec fn strict_takes<T, E, X>(
    mode: RRMode,
    queues: Map<Seq<u32>, Seq<T>>,
    came: Seq<Option<DetMessage<T>>>,
    r: Result<Result<T, E>, X>,
    came_after: Seq<Option<DetMessage<T>>>,
    after: Map<Seq<u32>, Seq<T>>,
) -> bool {
    match mode {
        RRMode::Record => passed(came, outcome_message(r), came_after) && after == queues,
        _ => conserves(queues, came, outcome_message(r), came_after, after),
    }
}

/// A receive that follows the logged outcome: an error is returned, and a message is waited for.
pub open spec fn follows<T, E>(
    outcome: Result<Seq<u32>, E>,
    before: Receiver<T>,
    det_id: Seq<u32>,
    r: Result<Result<T, E>, MismatchView>,
    after: Map<Seq<u32>, Seq<T>>,
) -> bool {
    match outcome {
        Ok(sender) => match r {
            Ok(Ok(msg)) => waited(before, det_id, sender, Some(msg), after),
            Ok(Err(_)) => false,
            Err(e) => e is Lost && waited(before, det_id, sender, None, after),
        },
        Err(e) => r == Ok::<Result<T, E>, MismatchView>(Err(e)) && after == before.queues(),
    }
}

/// A replay of the logged `event` on a channel of the variant `flavor`.
pub open spec fn replayed<T, E: StrictRecv>(
    event: EventView,
    flavor: ChannelVariant,
    before: Receiver<T>,
    det_id: Seq<u32>,
    r: Result<Result<T, E>, MismatchView>,
    after: Map<Seq<u32>, Seq<T>>,
) -> bool {
    let actual = marker(before.receiver);
    if flavor != actual {
        &&& r == Err::<Result<T, E>, MismatchView>(MismatchView::Flavor(flavor, actual))
        &&& after == before.queues()
    } else if exists|outcome: Result<Seq<u32>, E>| #[trigger] E::event_view(outcome) == event {
        exists|outcome: Result<Seq<u32>, E>| #[trigger]
            E::event_view(outcome) == event && follows(outcome, before, det_id, r, after)
    } else {
        &&& r == Err::<Result<T, E>, MismatchView>(MismatchView::Event(event))
        &&& after == before.queues()
    }
}

/// A receive that is recorded: what came is returned and logged.
pub open spec fn recorded<T, E: StrictRecv>(
    gives: spec_fn(Result<DetMessage<T>, E>) -> bool,
    flavor: ChannelVariant,
    thread: EventThreadView,
    r: Result<Result<T, E>, MismatchView>,
    entry: Option<(EventKey, LoggedEvent)>,
) -> bool {
    exists|got: Result<DetMessage<T>, E>| #[trigger]
        gives(got) && r == Ok::<Result<T, E>, MismatchView>(without_sender(got)) && is_entry::<E>(
            entry,
            thread,
            sender_of(got),
            flavor,
        )
}

/// `entry` is to be added to the log for the next event of `thread`.
pub open spec fn is_entry<E: StrictRecv>(
    entry: Option<(EventKey, LoggedEvent)>,
    thread: EventThreadView,
    outcome: Result<Seq<u32>, E>,
    flavor: ChannelVariant,
) -> bool {
    match entry {
        Some((key, logged)) => {
            &&& key@ == thread.key()
            &&& logged.event@ == E::event_view(outcome)
            &&& logged.flavor == flavor
        },
        None => false,
    }
}

/// A receive that follows the log, if the log holds its event.
pub open spec fn looked_up<T, E: StrictRecv>(
    log: EventLog,
    before: Receiver<T>,
    thread: EventThreadView,
    r: Result<Result<T, E>, MismatchView>,
    thread_after: EventThreadView,
    after: Map<Seq<u32>, Seq<T>>,
) -> bool {
    if log@.contains_key(thread.key()) {
        let logged = log@[thread.key()];
        &&& replayed(logged.event@, logged.flavor, before, thread.det_id, r, after)
        &&& thread_after == thread.next()
    } else {
        &&& r == Err::<Result<T, E>, MismatchView>(MismatchView::NoEntry)
        &&& thread_after == thread
        &&& after == before.queues()
    }
}

/// A receive in each of the modes: `gives` tells what the channel may give.
pub open spec fn strict_recv<T, E: StrictRecv>(
    gives: spec_fn(Result<DetMessage<T>, E>) -> bool,
    log: EventLog,
    before: Receiver<T>,
    thread: EventThreadView,
    r: Result<Result<T, E>, MismatchView>,
    entry: Option<(EventKey, LoggedEvent)>,
    thread_after: EventThreadView,
    after: Map<Seq<u32>, Seq<T>>,
) -> bool {
    match before.mode {
        RRMode::Record => {
            &&& recorded(gives, marker(before.receiver), thread, r, entry)
            &&& thread_after == thread.next()
            &&& after == before.queues()
        },
        _ => entry is None && looked_up(log, before, thread, r, thread_after, after),
    }
}

/// The mathematical value of a result whose error is a mismatch.
pub open spec fn mismatch_view<V>(r: Result<V, Mismatch>) -> Result<V, MismatchView> {
    match r {
        Ok(v) => Ok(v),
        Err(e) => Err(e@),
    }
}

impl<T> Receiver<T> {
    pub open spec fn wf(self) -> bool {
        &&& self.buffer.wf()
        &&& self.came matches Some(came)
        &&& came.end() == self.receiver.end()
    }

    /// What each receive on the channel took off it, oldest first.
    pub open spec fn came(self) -> Seq<Option<DetMessage<T>>> {
        self.came->0.seen()
    }

    /// The messages that are kept, by sender.
    pub open spec fn queues(self) -> Map<Seq<u32>, Seq<T>> {
        contents(self.buffer)
    }

    /// Both are the same end of the same channel, whatever they keep.
    pub open spec fn same_channel(self, other: Receiver<T>) -> bool {
        self.receiver == other.receiver && self.mode == other.mode
    }

    /// A receiving end that keeps no message yet.
    pub fn new(mode: RRMode, receiver: ChannelKind<T>) -> (r: Receiver<T>)
        ensures
            is_new_receiver(mode, r),
            r.receiver == receiver,
            r.came() == Seq::<Option<DetMessage<T>>>::empty(),
    {
        let (receiver, came) = receiver.start();
        let r = Receiver { buffer: BufferedValues::new(), receiver, mode, came: Some(came) };
        assert(r.queues() =~= Map::<Seq<u32>, Seq<T>>::empty());
        r
    }

    /// The variant of the channel.
    pub fn flavor(&self) -> (flavor: ChannelVariant)
        ensures
            flavor == marker(self.receiver),
    {
        match self.receiver {
            ChannelKind::Unbounded(_) => ChannelVariant::CbUnbounded,
            ChannelKind::After(_) => ChannelVariant::CbAfter,
            ChannelKind::Bounded(_) => ChannelVariant::CbBounded,
            ChannelKind::Never(_) => ChannelVariant::CbNever,
        }
    }

    /// Waits for a message from `sender`. Messages from others are kept in the buffer, which is
    /// looked at first.
    pub fn replay_recv(&mut self, det_id: &DetThreadId, sender: &DetThreadId) -> (r: Option<T>)
        requires
            old(self).wf(),
        ensures
            final(self).wf(),
            final(self).same_channel(*old(self)),
            waited(*old(self), det_id@, sender@, r, final(self).queues()),
            old(self).came().is_prefix_of(final(self).came()),
            accounted(
                old(self).queues(),
                since(old(self).came(), final(self).came()),
                handed_from(sender@, r),
                final(self).queues(),
            ),
    {
        let ghost queues = self.queues();
        let ghost earlier = self.came();
        let ghost mut polls: Seq<Poll<T>> = Seq::empty();
        let mut came = self.came.take().unwrap();
        proof {
            assert(earlier =~= earlier + takes(polls));
        }
        match self.buffer.pop_message(sender) {
            Some(msg) => {
                self.came = Some(came);
                proof {
                    assert(strict_wait(queues, sender@, polls, Some(msg), self.queues()));
                    lemma_strict_accounted(queues, sender@, polls, Some(msg), self.queues());
                    assert(since(earlier, self.came()) =~= takes(polls));
                }
                return Some(msg);
            },
            None => {},
        }
        let mut count: u64 = 0;
        while count < u64::MAX
            invariant
                self.buffer.wf(),
                came.end() == self.receiver.end(),
                came.seen() == earlier + takes(polls),
                earlier == old(self).came(),
                self.same_channel(*old(self)),
                queues == old(self).queues(),
                queue_of(queues, sender@).len() == 0,
                polls.len() == count,
                self.queues() == stash(queues, polls),
                forall|i: int|
                    0 <= i < polls.len() ==> {
                        &&& !is_from(#[trigger] polls[i], sender@)
                        &&& arrives(old(self).receiver, det_id@, polls[i])
                    },
            decreases u64::MAX - count,
        {
            let got = self.receiver.recv(det_id, &mut came);
            let ghost before = polls;
            proof {
                polls = polls.push(arrival(got));
                assert(earlier + takes(polls) =~= (earlier + takes(before)).push(took(got)));
                assert(polls.drop_last() =~= before);
                assert(arrives(old(self).receiver, det_id@, arrival(got)));
            }
            match got {
                Ok((id, msg)) => {
                    if id.same_path(sender) {
                        self.came = Some(came);
                        proof {
                            assert(strict_wait(queues, sender@, polls, Some(msg), self.queues()));
                            lemma_strict_accounted(
                                queues,
                                sender@,
                                polls,
                                Some(msg),
                                self.queues(),
                            );
                            assert(since(earlier, self.came()) =~= takes(polls));
                        }
                        return Some(msg);
                    }
                    self.buffer.push_message(id, msg);
                },
                Err(_) => {},
            }
            count += 1;
        }
        self.came = Some(came);
        proof {
            assert(strict_wait(queues, sender@, polls, None::<T>, self.queues()));
            lemma_strict_accounted(queues, sender@, polls, None::<T>, self.queues());
            assert(since(earlier, self.came()) =~= takes(polls));
        }
        None
    }

    /// Makes the entry of a receive that gave `got`.
    fn record<E: StrictRecv>(
        &self,
        thread: &mut EventThread,
        got: Result<DetMessage<T>, E>,
    ) -> (out: (Result<T, E>, (EventKey, LoggedEvent)))
        requires
            old(thread)@.select_id < u32::MAX,
        ensures
            out.0 == without_sender(got),
            is_entry::<E>(Some(out.1), old(thread)@, sender_of(got), marker(self.receiver)),
            final(thread)@ == old(thread)@.next(),
    {
        let key = EventKey { det_id: thread.det_id.clone(), select_id: thread.select_id };
        let (result, outcome) = match got {
            Ok((sender_thread, msg)) => (Ok(msg), Ok(sender_thread)),
            Err(e) => (Err(e), Err(e)),
        };
        let logged = LoggedEvent { event: E::event(outcome), flavor: self.flavor() };
        thread.select_id += 1;
        (result, (key, logged))
    }

    /// Follows the entry of the log for the next event.
    fn replay<E: StrictRecv>(&mut self, thread: &mut EventThread, log: &EventLog) -> (r: Result<
        Result<T, E>,
        Mismatch,
    >)
        requires
            old(self).wf(),
            log.wf(),
            old(thread)@.select_id < u32::MAX,
        ensures
            final(self).wf(),
            final(self).same_channel(*old(self)),
            looked_up(
                *log,
                *old(self),
                old(thread)@,
                mismatch_view(r),
                final(thread)@,
                final(self).queues(),
            ),
            conserves(
                old(self).queues(),
                old(self).came(),
                outcome_message(r),
                final(self).came(),
                final(self).queues(),
            ),
    {
        proof {
            lemma_idle_conserves::<DetThreadId, T>(self.queues(), self.came());
        }
        let key = EventKey { det_id: thread.det_id.clone(), select_id: thread.select_id };
        let (event, flavor) = match log.get(&key) {
            Some(logged) => (logged.event.clone(), logged.flavor),
            None => {
                return Err(Mismatch::NoEntry);
            },
        };
        thread.select_id += 1;
        let actual = self.flavor();
        if flavor != actual {
            return Err(Mismatch::Flavor(flavor, actual));
        }
        match E::outcome(event) {
            Ok(outcome) => {
                let ghost seen = sender_view(outcome);
                let r = match outcome {
                    Ok(sender) => match self.replay_recv(&key.det_id, &sender) {
                        Some(msg) => {
                            proof {
                                let came = since(old(self).came(), self.came());
                                assert(hands_out(
                                    old(self).queues(),
                                    came,
                                    sender@,
                                    msg,
                                    self.queues(),
                                ));
                                assert(some_out(old(self).queues(), came, msg, self.queues()));
                            }
                            Ok(Ok(msg))
                        },
                        None => Err(Mismatch::Lost),
                    },
                    Err(e) => Ok(Err(e)),
                };
                assert(E::event_view(seen) == log@[key@].event@);
                assert(follows(seen, *old(self), thread@.det_id, mismatch_view(r), self.queues()));
                r
            },
            Err(event) => Err(Mismatch::Event(event)),
        }
    }

    /// A blocking receive. The second part of the result is to be added to the log.
    pub fn recv(&mut self, thread: &mut EventThread, log: &EventLog) -> (out: (
        Result<Result<T, RecvErrorDef>, Mismatch>,
        Option<(EventKey, LoggedEvent)>,
    ))
        requires
            old(self).wf(),
            log.wf(),
            old(self).mode != RRMode::NoRR,
            old(thread)@.select_id < u32::MAX,
        ensures
            final(self).wf(),
            final(self).same_channel(*old(self)),
            strict_recv(
                |got: Result<DetMessage<T>, RecvErrorDef>|
                    old(self).receiver.recv_gives(old(thread)@.det_id, got),
                *log,
                *old(self),
                old(thread)@,
                mismatch_view(out.0),
                out.1,
                final(thread)@,
                final(self).queues(),
            ),
            strict_takes(
                old(self).mode,
                old(self).queues(),
                old(self).came(),
                out.0,
                final(self).came(),
                final(self).queues(),
            ),
    {
        let det_id = thread.det_id.clone();
        match self.mode {
            RRMode::Record => {
                let mut came = self.came.take().unwrap();
                let got = self.receiver.recv(&det_id, &mut came);
                self.came = Some(came);
                let ghost seen = got;
                let ghost gives = |got: Result<DetMessage<T>, RecvErrorDef>|
                    old(self).receiver.recv_gives(old(thread)@.det_id, got);
                let (result, entry) = self.record(thread, got);
                assert(gives(seen));
                (Ok(result), Some(entry))
            },
            _ => (self.replay(thread, log), None),
        }
    }

    /// A receive that does not wait. The second part of the result is to be added to the log.
    pub fn try_recv(&mut self, thread: &mut EventThread, log: &EventLog) -> (out: (
        Result<Result<T, TryRecvErrorDef>, Mismatch>,
        Option<(EventKey, LoggedEvent)>,
    ))
        requires
            old(self).wf(),
            log.wf(),
            old(self).mode != RRMode::NoRR,
            old(thread)@.select_id < u32::MAX,
        ensures
            final(self).wf(),
            final(self).same_channel(*old(self)),
            strict_recv(
                |got: Result<DetMessage<T>, TryRecvErrorDef>|
                    old(self).receiver.try_recv_gives(old(thread)@.det_id, got),
                *log,
                *old(self),
                old(thread)@,
                mismatch_view(out.0),
                out.1,
                final(thread)@,
                final(self).queues(),
            ),
            strict_takes(
                old(self).mode,
                old(self).queues(),
                old(self).came(),
                out.0,
                final(self).came(),
                final(self).queues(),
            ),
    {
        let det_id = thread.det_id.clone();
        match self.mode {
            RRMode::Record => {
                let mut came = self.came.take().unwrap();
                let got = self.receiver.try_recv(&det_id, &mut came);
                self.came = Some(came);
                let ghost seen = got;
                let ghost gives = |got: Result<DetMessage<T>, TryRecvErrorDef>|
                    old(self).receiver.try_recv_gives(old(thread)@.det_id, got);
                let (result, entry) = self.record(thread, got);
                assert(gives(seen));
                (Ok(result), Some(entry))
            },
            _ => (self.replay(thread, log), None),
        }
    }

    /// A receive that waits no longer than `timeout`. The second part of the result is to be added
    /// to the log.
    pub fn recv_timeout(
        &mut self,
        thread: &mut EventThread,
        log: &EventLog,
        timeout: Duration,
    ) -> (out: (Result<Result<T, RecvTimeoutErrorDef>, Mismatch>, Option<(EventKey, LoggedEvent)>))
        requires
            old(self).wf(),
            log.wf(),
            old(self).mode != RRMode::NoRR,
            old(thread)@.select_id < u32::MAX,
        ensures
            final(self).wf(),
            final(self).same_channel(*old(self)),
            strict_recv(
                |got: Result<DetMessage<T>, RecvTimeoutErrorDef>|
                    old(self).receiver.recv_timeout_gives(old(thread)@.det_id, timeout, got),
                *log,
                *old(self),
                old(thread)@,
                mismatch_view(out.0),
                out.1,
                final(thread)@,
                final(self).queues(),
            ),
            strict_takes(
                old(self).mode,
                old(self).queues(),
                old(self).came(),
                out.0,
                final(self).came(),
                final(self).queues(),
            ),
    {
        let det_id = thread.det_id.clone();
        match self.mode {
            RRMode::Record => {
                let mut came = self.came.take().unwrap();
                let got = self.receiver.recv_timeout(&det_id, timeout, &mut came);
                self.came = Some(came);
                let ghost seen = got;
                let ghost gives = |got: Result<DetMessage<T>, RecvTimeoutErrorDef>|
                    old(self).receiver.recv_timeout_gives(old(thread)@.det_id, timeout, got);
                let (result, entry) = self.record(thread, got);
                assert(gives(seen));
                (Ok(result), Some(entry))
            },
            _ => (self.replay(thread, log), None),
        }
    }
}

/// A channel without a bound.
pub fn unbounded<T>(mode: RRMode) -> (ends: (Sender<T>, Receiver<T>))
    ensures
        ends.0.mode == mode,
        is_new_receiver(mode, ends.1),
        match ends.1.receiver {
            ChannelKind::Unbounded(inner) => crossbeam_unbounded_gave((ends.0.sender, inner)),
            _ => false,
        },
{
    let f = crossbeam_unbounded::<DetMessage<T>>;
    let (sender, receiver) = f();
    let receiver = ChannelKind::Unbounded(receiver);
    (Sender { sender, mode }, Receiver::new(mode, receiver))
}

/// `receiver` keeps no message yet.
pub open spec fn is_new_receiver<T>(mode: RRMode, receiver: Receiver<T>) -> bool {
    &&& receiver.wf()
    &&& receiver.queues() == Map::<Seq<u32>, Seq<T>>::empty()
    &&& receiver.came() == Seq::<Option<DetMessage<T>>>::empty()
    &&& receiver.mode == mode
}

/// A receiver that delivers the time once `duration` has passed.
pub fn after(mode: RRMode, duration: Duration) -> (receiver: Receiver<Instant>)
    ensures
        is_new_receiver(mode, receiver),
        match receiver.receiver {
            ChannelKind::After(inner) => crossbeam_after_gave(duration, inner),
            _ => false,
        },
{
    let f = crossbeam_after;
    let receiver = ChannelKind::After(f(duration));
    Receiver::new(mode, receiver)
}

/// A receiver that never delivers a message.
pub fn never<T>(mode: RRMode) -> (receiver: Receiver<T>)
    ensures
        is_new_receiver(mode, receiver),
        receiver.receiver.is_silent(),
        match receiver.receiver {
            ChannelKind::Never(inner) => crossbeam_never_gave(inner),
            _ => false,
        },
{
    let f = crossbeam_never::<DetMessage<T>>;
    let receiver = ChannelKind::Never(f());
    Receiver::new(mode, receiver)
}

/// What was recorded is what a replay with the same log asks for: an error comes back as it was, and
/// for a message the replay waits for one from the same sender, on a channel of the same variant.
pub proof fn law_strict_replay_follows_log<T, E: StrictRecv>(
    got: Result<DetMessage<T>, E>,
    entry: (EventKey, LoggedEvent),
    log: EventLog,
    before: Receiver<T>,
    thread: EventThreadView,
    r: Result<Result<T, E>, MismatchView>,
    thread_after: EventThreadView,
    after: Map<Seq<u32>, Seq<T>>,
)
    requires
        is_entry::<E>(Some(entry), thread, sender_of(got), marker(before.receiver)),
        log@.contains_key(thread.key()),
        log@[thread.key()] == entry.1,
        looked_up(log, before, thread, r, thread_after, after),
    ensures
        follows(sender_of(got), before, thread.det_id, r, after),
        thread_after == thread.next(),
{
    let event = entry.1.event@;
    let outcome = choose|outcome: Result<Seq<u32>, E>| #[trigger]
        E::event_view(outcome) == event && follows(outcome, before, thread.det_id, r, after);
    E::lemma_injective(outcome, sender_of(got));
}

proof fn lemma_none_from<T>(polls: Seq<Poll<T>>, sender: Seq<u32>)
    requires
        forall|i: int| 0 <= i < polls.len() ==> !is_from(#[trigger] polls[i], sender),
    ensures
        polled_from(polls, sender) == Seq::<T>::empty(),
    decreases polls.len(),
{
    if polls.len() > 0 {
        let fewer = polls.drop_last();
        assert(!is_from(polls[polls.len() - 1], sender));
        assert forall|i: int| 0 <= i < fewer.len() implies !is_from(
            #[trigger] fewer[i],
            sender,
        ) by {
            assert(fewer[i] == polls[i]);
        }
        lemma_none_from(fewer, sender);
    }
}

/// A strict wait, also one that gives up, loses no message and swaps none of one sender.
proof fn lemma_strict_wait<T>(
    queues: Map<Seq<u32>, Seq<T>>,
    sender: Seq<u32>,
    polls: Seq<Poll<T>>,
    r: Option<T>,
    after: Map<Seq<u32>, Seq<T>>,
    from: Seq<u32>,
)
    requires
        strict_wait(queues, sender, polls, r, after),
    ensures
        delivered(sender, r.ok_or(()), from) + queue_of(after, from) == queue_of(queues, from)
            + polled_from(polls, from),
{
    if queue_of(queues, sender).len() > 0 {
        let queue = queue_of(queues, sender);
        assert(seq![queue[0]] + queue.drop_first() =~= queue + Seq::<T>::empty());
        assert(Seq::<T>::empty() + queue_of(queues, from) =~= queue_of(queues, from)
            + Seq::<T>::empty());
    } else {
        let earlier = polls.drop_last();
        lemma_stash::<DetThreadId, T>(queues, earlier, from);
        lemma_stash::<DetThreadId, T>(queues, polls, from);
        assert forall|i: int| 0 <= i < earlier.len() implies !is_from(
            #[trigger] earlier[i],
            sender,
        ) by {
            assert(earlier[i] == polls[i]);
        }
        lemma_none_from(earlier, sender);
        let rest = queue_of(queues, from) + polled_from(polls, from);
        assert(Seq::<T>::empty() + rest =~= rest);
        if let Ok((id, msg)) = polls.last() {
            if id@ == sender && from == sender {
                assert(seq![msg] + queue_of(after, from) =~= rest);
            }
        }
    }
}

/// A receive that follows its entry is an operation of a run, on the channel `channel`. Where it does
/// not lose its message, it repeats what was recorded.
pub proof fn law_strict_receive_is_a_wait<C, T, E: StrictRecv>(
    channel: C,
    got: Result<DetMessage<T>, E>,
    before: Receiver<T>,
    det_id: Seq<u32>,
    r: Result<Result<T, E>, MismatchView>,
    after: Map<Seq<u32>, Seq<T>>,
) -> (wait: Wait<C, DetThreadId, T>)
    requires
        follows(sender_of(got), before, det_id, r, after),
    ensures
        is_wait(wait),
        wait.channel == channel,
        wait.before == before.queues(),
        wait.after == after,
        wait.r == match r {
            Ok(Ok(msg)) => Some(msg),
            _ => None,
        },
        r is Ok ==> repeats(strict_got(channel, got), wait),
        got matches Err(e) ==> r == Ok::<Result<T, E>, MismatchView>(Err(e)),
{
    let queues = before.queues();
    match got {
        Ok((id, _)) => {
            let sender = id@;
            let found = match r {
                Ok(Ok(msg)) => Some(msg),
                _ => None,
            };
            let polls = choose|polls: Seq<Poll<T>>|
                {
                    &&& #[trigger] strict_wait(queues, sender, polls, found, after)
                    &&& forall|i: int|
                        0 <= i < polls.len() ==> arrives(
                            before.receiver,
                            det_id,
                            #[trigger] polls[i],
                        )
                };
            let wait = Wait {
                channel,
                expected: Some(sender),
                polls,
                r: found,
                before: queues,
                after,
            };
            assert forall|from: Seq<u32>|
                handed_out(wait, from) + #[trigger] queue_of(wait.after, from) == queue_of(
                    wait.before,
                    from,
                ) + polled_from(wait.polls, from) by {
                lemma_strict_wait(queues, sender, polls, found, after, from);
                assert(handed_out(wait, from) =~= delivered(sender, found.ok_or(()), from));
            }
            wait
        },
        Err(_) => law_idle_operation_is_a_wait(channel, queues, after),
    }
}

/// What was received while recording on `channel`.
pub open spec fn strict_got<C, T, E>(channel: C, got: Result<DetMessage<T>, E>) -> Got<
    C,
    DetThreadId,
    T,
> {
    Got {
        channel,
        message: match got {
            Ok((id, msg)) => Some((id@, msg)),
            Err(_) => None,
        },
    }
}

/// A strict replay delivers what was recorded, on all channels of a thread, where each sender sends
/// the same messages in the same order again, and its receives repeat what was recorded.
pub proof fn law_strict_replay_repeats_record<C, T>(
    record: Seq<Got<C, DetThreadId, T>>,
    run: Seq<Wait<C, DetThreadId, T>>,
    streams: spec_fn(C, Seq<u32>) -> Seq<T>,
)
    requires
        is_run(run),
        record.len() == run.len(),
        forall|i: int| 0 <= i < run.len() ==> repeats(record[i], #[trigger] run[i]),
        forall|channel: C, sender: Seq<u32>|
            (#[trigger] recorded_from(record, channel, sender)).is_prefix_of(
                streams(channel, sender),
            ),
        forall|channel: C, sender: Seq<u32>|
            (#[trigger] run_polled(run, channel, sender)).is_prefix_of(streams(channel, sender)),
    ensures
        forall|i: int|
            0 <= i < run.len() && (#[trigger] record[i]).message is Some ==> run[i].r == Some(
                (record[i].message->0).1,
            ),
{
    law_replay_delivers_record(record, run, streams);
}

} // verus!
