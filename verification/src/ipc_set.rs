//! Record and replay for sets of inter-process receivers.
//!
//! While replaying, receivers are not added to the real set. They are kept here, and the log tells
//! which of them delivers the next message.

use vstd::prelude::*;
use crate::desync::{mark_program_as_desynced, DesyncMode};
use crate::detthread::{ThreadState, ThreadView};
use crate::error::{DesyncError, DesyncErrorView, RecvErrorRR};
use crate::ipc_message::{
    deserialize_id, do_replay_recv_for_entry, found_message, rr_recv, sender_in, sender_of,
    wait_gives_opaque, wait_relation, Attempt, IpcSelectionResult, OpaqueIpcMessage, Waited,
};
use crate::ipc::{IpcReceiver, OpaqueIpcReceiver};
use crate::mode::RRMode;
use crate::recorder::{after_fetch, after_write, write_gave};
use crate::recordlog::{
    channel_mismatch, entry_of, reports, select_events_view, ChannelVariant, EntryView,
    IpcSelectEvent, IpcSelectEventView, MetadataView, RecordEntry, RecordMetadata, TivoEvent,
    TivoEventView,
};
use crate::rr::DetChannelId;
use crate::set_flow::{
    gives_each, gives_one, last_attempt, lemma_set_chain, lemma_set_close, lemma_set_idle,
    lemma_set_wait, lemma_still_at, lemma_tried_since, on_receivers, ready_for_all, received,
    set_accounted, Arrivals,
};
use crate::source::since;
use crate::thread_map::{all_empty, contents, drained, BufferedValues, ThreadMap};
use crate::wire::{all_calls_at, CallsAt, SetTap};

verus! {

/// A set of receivers that can be selected from. `R` is the end of a real channel.
///
/// Receivers have to be added in the same order while recording and while replaying.
pub struct IpcReceiverSet<R, A> {
    pub mode: RRMode,
    /// The index of the next receiver that is added while replaying.
    pub index: u64,
    /// While replaying: the receivers, at their indices.
    pub receivers: Vec<OpaqueIpcReceiver<R>>,
    /// While replaying: the messages of each receiver that came before those that the replay had
    /// to wait for.
    pub buffer: Vec<BufferedValues<OpaqueIpcMessage<A>>>,
    /// The receivers were moved to the real set.
    pub desynced: bool,
}

/// The receivers of a set, and what is kept for each of them.
pub struct SetView<R, A> {
    pub receivers: Seq<OpaqueIpcReceiver<R>>,
    pub queues: Seq<Map<Seq<u32>, Seq<OpaqueIpcMessage<A>>>>,
}

impl<R, A> View for IpcReceiverSet<R, A> {
    type V = SetView<R, A>;

    open spec fn view(&self) -> SetView<R, A> {
        SetView {
            receivers: self.receivers@,
            queues: self.buffer@.map_values(
                |buffer: BufferedValues<OpaqueIpcMessage<A>>| contents(buffer),
            ),
        }
    }
}

/// The receivers once the one at `i` is known to be closed.
pub open spec fn close_at<R>(receivers: Seq<OpaqueIpcReceiver<R>>, i: int) -> Seq<
    OpaqueIpcReceiver<R>,
> {
    receivers.update(i, OpaqueIpcReceiver { closed: true, ..receivers[i] })
}

/// What came of the replay of one logged result.
pub enum EventOutcome<A> {
    Replayed(IpcSelectionResult<A>),
    /// The replay does not follow its log. What came instead is not lost.
    Desync(DesyncError, Option<IpcSelectionResult<A>>),
    /// A message came whose sender cannot be read.
    Unreadable,
}

/// What becomes of a wait for the message at `index`.
pub open spec fn waited_event<A>(index: u64, w: Waited<A>) -> EventOutcome<A> {
    match w {
        Waited::Found(msg) => EventOutcome::Replayed(
            IpcSelectionResult::MessageReceived(index, msg),
        ),
        Waited::Closed => EventOutcome::Desync(
            DesyncError::ChannelClosedUnexpected(index),
            Some(IpcSelectionResult::ChannelClosed(index)),
        ),
        Waited::TimedOut => EventOutcome::Desync(DesyncError::Timeout(None), None),
        Waited::Unreadable => EventOutcome::Unreadable,
    }
}

/// What becomes of a wait for the channel at `index` to be closed.
pub open spec fn closed_event<A>(
    index: u64,
    got: Result<OpaqueIpcMessage<A>, RecvErrorRR>,
) -> EventOutcome<A> {
    match got {
        Ok(msg) => EventOutcome::Desync(
            DesyncError::ChannelClosedExpected,
            Some(IpcSelectionResult::MessageReceived(index, msg)),
        ),
        Err(RecvErrorRR::Disconnected) => EventOutcome::Replayed(
            IpcSelectionResult::ChannelClosed(index),
        ),
        Err(RecvErrorRR::Timeout) => EventOutcome::Desync(DesyncError::Timeout(None), None),
    }
}

/// The wait `w` for a message from `sender` at position `i`.
pub open spec fn message_step<R, A>(
    tries: spec_fn(R, Attempt<A>) -> bool,
    before: SetView<R, A>,
    i: int,
    sender: Seq<u32>,
    w: Waited<A>,
    after: SetView<R, A>,
) -> bool {
    &&& after.queues.len() == before.queues.len()
    &&& forall|j: int|
        0 <= j < before.queues.len() && j != i ==> #[trigger] after.queues[j] == before.queues[j]
    &&& wait_relation(
        before.queues[i],
        sender,
        |a: Attempt<A>| tries(before.receivers[i].opaque_receiver, a),
        w,
        after.queues[i],
    )
    &&& after.receivers == if w is Closed {
        close_at(before.receivers, i)
    } else {
        before.receivers
    }
}

/// The wait at position `i` for the channel to be closed gave `got`.
pub open spec fn close_step<R, A>(
    tries: spec_fn(R, Attempt<A>) -> bool,
    before: SetView<R, A>,
    i: int,
    got: Result<OpaqueIpcMessage<A>, RecvErrorRR>,
    after: SetView<R, A>,
) -> bool {
    &&& after.queues == before.queues
    &&& wait_gives_opaque(
        |a: Attempt<A>| tries(before.receivers[i].opaque_receiver, a),
        got,
    )
    &&& after.receivers == if got == Err::<OpaqueIpcMessage<A>, RecvErrorRR>(
        RecvErrorRR::Disconnected,
    ) {
        close_at(before.receivers, i)
    } else {
        before.receivers
    }
}

/// The replay of a logged message from `sender` at `index`.
pub open spec fn message_event<R, A>(
    tries: spec_fn(R, Attempt<A>) -> bool,
    before: SetView<R, A>,
    index: u64,
    sender: Seq<u32>,
    outcome: EventOutcome<A>,
    after: SetView<R, A>,
) -> bool {
    exists|w: Waited<A>|
        {
            &&& #[trigger] message_step(tries, before, index as int, sender, w, after)
            &&& outcome == waited_event(index, w)
        }
}

/// The replay of a logged end of the channel at `index`.
pub open spec fn close_event<R, A>(
    tries: spec_fn(R, Attempt<A>) -> bool,
    before: SetView<R, A>,
    index: u64,
    outcome: EventOutcome<A>,
    after: SetView<R, A>,
) -> bool {
    exists|got: Result<OpaqueIpcMessage<A>, RecvErrorRR>|
        {
            &&& #[trigger] close_step(tries, before, index as int, got, after)
            &&& outcome == closed_event(index, got)
        }
}

/// The replay of one logged result: `tries` tells what an attempt on a receiver may give.
pub open spec fn event_step<R, A>(
    tries: spec_fn(R, Attempt<A>) -> bool,
    before: SetView<R, A>,
    event: IpcSelectEventView,
    outcome: EventOutcome<A>,
    after: SetView<R, A>,
) -> bool {
    match event {
        IpcSelectEventView::MessageReceived(index, sender) => {
            if index < before.receivers.len() {
                message_event(tries, before, index, sender, outcome, after)
            } else {
                &&& after == before
                &&& outcome == EventOutcome::<A>::Desync(DesyncError::MissingReceiver(index), None)
            }
        },
        IpcSelectEventView::ChannelClosed(index) => {
            if index < before.receivers.len() {
                close_event(tries, before, index, outcome, after)
            } else {
                &&& after == before
                &&& outcome == EventOutcome::<A>::Desync(DesyncError::MissingReceiver(index), None)
            }
        },
    }
}

/// The position and the sender that a result is logged with, if it is a message.
pub open spec fn slot_of(event: IpcSelectEventView) -> Option<(int, Seq<u32>)> {
    match event {
        IpcSelectEventView::MessageReceived(index, sender) => Some((index as int, sender)),
        IpcSelectEventView::ChannelClosed(_) => None,
    }
}

/// The positions and the senders of the logged results.
pub open spec fn slots_of(events: Seq<IpcSelectEventView>) -> Seq<Option<(int, Seq<u32>)>> {
    events.map_values(|event: IpcSelectEventView| slot_of(event))
}

/// The ends of the real channels.
pub open spec fn real_ends<R>(receivers: Seq<OpaqueIpcReceiver<R>>) -> Seq<R> {
    receivers.map_values(|receiver: OpaqueIpcReceiver<R>| receiver.opaque_receiver)
}

/// What the replay of one logged result takes from the receivers. A result that is replayed comes before
/// what is kept, and what came instead of it comes after.
pub open spec fn event_takes<R, A>(
    before: SetView<R, A>,
    seen: Arrivals<R, A>,
    event: IpcSelectEventView,
    outcome: EventOutcome<A>,
    after: SetView<R, A>,
) -> bool {
    &&& on_receivers(seen, real_ends(before.receivers))
    &&& match outcome {
        EventOutcome::Replayed(result) => set_accounted(
            sender_in(),
            before.queues,
            seen,
            seq![slot_of(event)],
            seq![result],
            None,
            after.queues,
        ),
        EventOutcome::Desync(_, last) => set_accounted(
            sender_in(),
            before.queues,
            seen,
            Seq::empty(),
            Seq::empty(),
            last,
            after.queues,
        ),
        EventOutcome::Unreadable => true,
    }
}

/// What a select takes from the receivers. The results come before what is kept, and what came instead
/// of a logged result comes after.
pub open spec fn select_takes<R, A, E>(
    before: SetView<R, A>,
    seen: Arrivals<R, A>,
    events: Seq<IpcSelectEventView>,
    r: IpcSelecting<A, E>,
    after: SetView<R, A>,
) -> bool {
    &&& on_receivers(seen, real_ends(before.receivers))
    &&& match r {
        IpcSelecting::Selected(Ok(results)) => set_accounted(
            sender_in(),
            before.queues,
            seen,
            slots_of(events),
            results@,
            None,
            after.queues,
        ),
        IpcSelecting::Selected(Err(_)) => seen.len() == 0,
        IpcSelecting::Desync(_, results, last) => results@.len() <= events.len() && set_accounted(
            sender_in(),
            before.queues,
            seen,
            slots_of(events.take(results@.len() as int)),
            results@,
            last,
            after.queues,
        ),
        IpcSelecting::Fatal(_) => true,
    }
}

/// The logged results that a select follows: those of its entry while it replays.
pub open spec fn followed<R, A>(set: IpcReceiverSet<R, A>, thread: ThreadView) -> Option<
    Seq<IpcSelectEventView>,
> {
    if thread.desynced || set.mode != RRMode::Replay || set.desynced
        || thread.log.remaining.len() == 0 {
        None
    } else {
        match thread.log.remaining[0].event {
            TivoEventView::IpcSelect { select_events } => Some(select_events),
            _ => None,
        }
    }
}

/// What a select takes from the receivers in each of the modes: nothing, unless it follows the log.
pub open spec fn rr_select_takes<R, A, E>(
    set: IpcReceiverSet<R, A>,
    thread: ThreadView,
    seen: Arrivals<R, A>,
    r: IpcSelecting<A, E>,
    after: SetView<R, A>,
) -> bool {
    match followed(set, thread) {
        Some(events) => select_takes(set@, seen, events, r, after),
        None => seen.len() == 0,
    }
}

impl<R, A> IpcReceiverSet<R, A> {
    pub open spec fn wf(self) -> bool {
        &&& forall|i: int| 0 <= i < self.buffer@.len() ==> (#[trigger] self.buffer@[i]).wf()
        &&& if self.desynced {
            self.receivers@.len() == 0
        } else {
            self.receivers@.len() == self.index && self.buffer@.len() == self.index
        }
    }

    /// Nothing but the receivers and what is kept for them may differ.
    pub open spec fn same_set(self, other: IpcReceiverSet<R, A>) -> bool {
        &&& self.mode == other.mode
        &&& self.index == other.index
        &&& self.desynced == other.desynced
    }

    /// An empty set, once there is a real one.
    pub fn new(thread: &ThreadState) -> (set: IpcReceiverSet<R, A>)
        ensures
            set.wf(),
            set.mode == thread@.mode,
            set.index == 0,
            !set.desynced,
            set@.receivers == Seq::<OpaqueIpcReceiver<R>>::empty(),
            set@.queues == Seq::<Map<Seq<u32>, Seq<OpaqueIpcMessage<A>>>>::empty(),
    {
        let set = IpcReceiverSet {
            mode: thread.mode,
            index: 0,
            receivers: Vec::new(),
            buffer: Vec::new(),
            desynced: false,
        };
        assert(set@.queues =~= Seq::<Map<Seq<u32>, Seq<OpaqueIpcMessage<A>>>>::empty());
        set
    }

    /// Replays one logged result of a select.
    pub fn replay_select_event<F: CallsAt<R, Attempt<A>>, S: Fn()>(
        &mut self,
        event: &IpcSelectEvent,
        tap: &mut SetTap<F, R, Attempt<A>>,
        pause: &S,
    ) -> (outcome: EventOutcome<A>)
        requires
            old(self).wf(),
            !old(self).desynced,
            ready_for_all::<R, Attempt<A>, F>(old(tap).calls()),
            call_requires(*pause, ()),
        ensures
            final(self).wf(),
            final(self).same_set(*old(self)),
            final(tap).calls() == old(tap).calls(),
            real_ends(final(self)@.receivers) == real_ends(old(self)@.receivers),
            event_step(
                gives_each(old(tap).calls()),
                old(self)@,
                event@,
                outcome,
                final(self)@,
            ),
            old(tap).seen().is_prefix_of(final(tap).seen()),
            event_takes(
                old(self)@,
                since(old(tap).seen(), final(tap).seen()),
                event@,
                outcome,
                final(self)@,
            ),
    {
        let ghost calls = tap.calls();
        let ghost tries = gives_each::<R, Attempt<A>, F>(calls);
        let ghost earlier = tap.seen();
        let ghost queues = self@.queues;
        proof {
            assert(since(earlier, earlier) =~= Seq::<(int, R, Attempt<A>)>::empty());
            lemma_set_idle::<Seq<u32>, R, A>(sender_in(), queues);
        }
        match event {
            IpcSelectEvent::MessageReceived(index, expected_sender) => {
                if *index >= self.receivers.len() as u64 {
                    return EventOutcome::Desync(DesyncError::MissingReceiver(*index), None);
                }
                let i: usize = *index as usize;
                let w = do_replay_recv_for_entry(
                    &mut self.buffer[i],
                    expected_sender,
                    &self.receivers[i].opaque_receiver,
                    Ghost(i as int),
                    tap,
                    pause,
                );
                let ghost seen = w;
                let ghost receiver = old(self).receivers@[i as int].opaque_receiver;
                assert((|a: Attempt<A>| tries(receiver, a)) =~= gives_one::<R, Attempt<A>, F>(
                    calls,
                    receiver,
                ));
                let ghost delta = since(earlier, tap.seen());
                let outcome = match w {
                    Waited::Found(msg) => EventOutcome::Replayed(
                        IpcSelectionResult::MessageReceived(*index, msg),
                    ),
                    Waited::Closed => {
                        self.receivers[i].closed = true;
                        EventOutcome::Desync(
                            DesyncError::ChannelClosedUnexpected(*index),
                            Some(IpcSelectionResult::ChannelClosed(*index)),
                        )
                    },
                    Waited::TimedOut => EventOutcome::Desync(DesyncError::Timeout(None), None),
                    Waited::Unreadable => EventOutcome::Unreadable,
                };
                assert(message_step(
                    tries,
                    old(self)@,
                    *index as int,
                    expected_sender@,
                    seen,
                    self@,
                ));
                assert(outcome == waited_event(*index, seen));
                let ghost done = outcome;
                proof {
                    assert(real_ends(self@.receivers) =~= real_ends(old(self)@.receivers));
                    let (slots, results, last) = match done {
                        EventOutcome::Replayed(result) => (
                            seq![slot_of(event@)],
                            seq![result],
                            None::<IpcSelectionResult<A>>,
                        ),
                        EventOutcome::Desync(_, last) => (Seq::empty(), Seq::empty(), last),
                        EventOutcome::Unreadable => (Seq::empty(), Seq::empty(), None),
                    };
                    if let Waited::Found(msg) = seen {
                        assert(results == seq![received(*index, msg)]);
                    }
                    lemma_set_wait(
                        sender_in(),
                        queues,
                        delta,
                        i as int,
                        receiver,
                        expected_sender@,
                        found_message(seen),
                        slots,
                        results,
                        last,
                        self@.queues,
                    );
                }
                outcome
            },
            IpcSelectEvent::ChannelClosed(index) => {
                if *index >= self.receivers.len() as u64 {
                    return EventOutcome::Desync(DesyncError::MissingReceiver(*index), None);
                }
                let i: usize = *index as usize;
                let got = rr_recv(
                    &self.receivers[i].opaque_receiver,
                    Ghost(i as int),
                    tap,
                    pause,
                );
                let ghost seen = got;
                let ghost receiver = old(self).receivers@[i as int].opaque_receiver;
                assert((|a: Attempt<A>| tries(receiver, a)) =~= gives_one::<R, Attempt<A>, F>(
                    calls,
                    receiver,
                ));
                let ghost delta = since(earlier, tap.seen());
                proof {
                    let none = Seq::<(int, R, Attempt<A>)>::empty();
                    assert(earlier + none =~= earlier);
                    lemma_tried_since(
                        earlier,
                        none,
                        i as int,
                        receiver,
                        last_attempt(got),
                        tap.seen(),
                    );
                    lemma_still_at(none, i as int, receiver, last_attempt(got), delta);
                }
                let outcome = match got {
                    Err(RecvErrorRR::Disconnected) => {
                        self.receivers[i].closed = true;
                        EventOutcome::Replayed(IpcSelectionResult::ChannelClosed(*index))
                    },
                    Err(RecvErrorRR::Timeout) => EventOutcome::Desync(
                        DesyncError::Timeout(None),
                        None,
                    ),
                    Ok(val) => EventOutcome::Desync(
                        DesyncError::ChannelClosedExpected,
                        Some(IpcSelectionResult::MessageReceived(*index, val)),
                    ),
                };
                assert(close_step(tries, old(self)@, *index as int, seen, self@));
                assert(outcome == closed_event(*index, seen));
                let ghost done = outcome;
                proof {
                    assert(real_ends(self@.receivers) =~= real_ends(old(self)@.receivers));
                    let (slots, results, last) = match done {
                        EventOutcome::Replayed(result) => (
                            seq![slot_of(event@)],
                            seq![result],
                            None::<IpcSelectionResult<A>>,
                        ),
                        EventOutcome::Desync(_, last) => (Seq::empty(), Seq::empty(), last),
                        EventOutcome::Unreadable => (Seq::empty(), Seq::empty(), None),
                    };
                    lemma_set_close(
                        sender_in(),
                        queues,
                        delta,
                        *index,
                        receiver,
                        last_attempt(seen),
                        slots,
                        results,
                        last,
                    );
                }
                outcome
            },
        }
    }
}

/// The event that records a result of a select, if the sender of its message can be read.
pub open spec fn event_of<A>(result: IpcSelectionResult<A>) -> Option<IpcSelectEventView> {
    match result {
        IpcSelectionResult::MessageReceived(index, msg) => match sender_of(msg.data@) {
            Some(sender) => Some(IpcSelectEventView::MessageReceived(index, sender)),
            None => None,
        },
        IpcSelectionResult::ChannelClosed(index) => Some(IpcSelectEventView::ChannelClosed(index)),
    }
}

/// The sender of every message can be read.
pub open spec fn readable<A>(selected: Seq<IpcSelectionResult<A>>) -> bool {
    forall|i: int| 0 <= i < selected.len() ==> event_of(#[trigger] selected[i]) is Some
}

/// The events that record the results of a select.
pub open spec fn events_of<A>(selected: Seq<IpcSelectionResult<A>>) -> Seq<IpcSelectEventView> {
    selected.map_values(|result: IpcSelectionResult<A>| event_of(result)->0)
}

/// The events that record the results of a select.
pub fn recorded_events<A>(selected: &Vec<IpcSelectionResult<A>>) -> (events: Option<
    Vec<IpcSelectEvent>,
>)
    ensures
        match events {
            Some(events) => readable(selected@) && select_events_view(events@) == events_of(
                selected@,
            ),
            None => !readable(selected@),
        },
{
    let mut events: Vec<IpcSelectEvent> = Vec::new();
    let mut i: usize = 0;
    while i < selected.len()
        invariant
            i <= selected@.len(),
            events@.len() == i,
            forall|j: int|
                0 <= j < i ==> event_of(#[trigger] selected@[j]) == Some(events@[j]@),
        decreases selected@.len() - i,
    {
        match &selected[i] {
            IpcSelectionResult::MessageReceived(index, opaque_msg) => {
                match deserialize_id(opaque_msg) {
                    Some(det_id) => {
                        events.push(IpcSelectEvent::MessageReceived(*index, det_id));
                    },
                    None => {
                        assert(event_of(selected@[i as int]) is None);
                        return None;
                    },
                }
            },
            IpcSelectionResult::ChannelClosed(index) => {
                events.push(IpcSelectEvent::ChannelClosed(*index));
            },
        }
        i += 1;
    }
    assert(select_events_view(events@) =~= events_of(selected@));
    Some(events)
}

/// How selects are described in the log: they belong to no single channel.
pub open spec fn select_metadata() -> MetadataView {
    MetadataView {
        message_type: "IpcSelect"@,
        channel_variant: ChannelVariant::IpcSelect,
        id: DetChannelId::fake_view(),
    }
}

/// Why a select cannot go on, whatever the mode.
pub enum Fatal {
    /// A message came whose sender cannot be read.
    UnreadableSender,
    /// The log cannot be written.
    LogFailed(DesyncError),
}

/// The outcome of a select.
pub enum IpcSelecting<A, E> {
    Selected(Result<Vec<IpcSelectionResult<A>>, E>),
    /// The replay does not follow its log. What was replayed before is not lost, nor is what came
    /// instead of the logged result.
    Desync(DesyncError, Vec<IpcSelectionResult<A>>, Option<IpcSelectionResult<A>>),
    Fatal(Fatal),
}

/// Each of the events was replayed, one after the other, with these results.
pub open spec fn events_replayed<R, A>(
    tries: spec_fn(R, Attempt<A>) -> bool,
    before: SetView<R, A>,
    events: Seq<IpcSelectEventView>,
    results: Seq<IpcSelectionResult<A>>,
    after: SetView<R, A>,
) -> bool
    decreases events.len(),
{
    &&& results.len() == events.len()
    &&& if events.len() == 0 {
        after == before
    } else {
        exists|mid: SetView<R, A>|
            {
                &&& events_replayed(tries, before, events.drop_last(), results.drop_last(), mid)
                &&& #[trigger] event_step(
                    tries,
                    mid,
                    events.last(),
                    EventOutcome::Replayed(results.last()),
                    after,
                )
            }
    }
}

proof fn lemma_one_more<R, A>(
    tries: spec_fn(R, Attempt<A>) -> bool,
    before: SetView<R, A>,
    events: Seq<IpcSelectEventView>,
    results: Seq<IpcSelectionResult<A>>,
    mid: SetView<R, A>,
    event: IpcSelectEventView,
    result: IpcSelectionResult<A>,
    after: SetView<R, A>,
)
    requires
        events_replayed(tries, before, events, results, mid),
        event_step(tries, mid, event, EventOutcome::Replayed(result), after),
    ensures
        events_replayed(tries, before, events.push(event), results.push(result), after),
{
    assert(events.push(event).drop_last() =~= events);
    assert(results.push(result).drop_last() =~= results);
    assert(event_step(
        tries,
        mid,
        events.push(event).last(),
        EventOutcome::Replayed(results.push(result).last()),
        after,
    ));
}

/// The results so far, and what came last.
pub open spec fn with_last<A>(
    results: Seq<IpcSelectionResult<A>>,
    last: Option<IpcSelectionResult<A>>,
) -> Seq<IpcSelectionResult<A>> {
    match last {
        Some(result) => results.push(result),
        None => results,
    }
}

/// The event at position `k` could not be replayed.
pub open spec fn failed_at<R, A, E>(
    tries: spec_fn(R, Attempt<A>) -> bool,
    before: SetView<R, A>,
    events: Seq<IpcSelectEventView>,
    k: int,
    results: Seq<IpcSelectionResult<A>>,
    mid: SetView<R, A>,
    outcome: EventOutcome<A>,
    r: IpcSelecting<A, E>,
    after: SetView<R, A>,
) -> bool {
    &&& 0 <= k < events.len()
    &&& events_replayed(tries, before, events.take(k), results, mid)
    &&& event_step(tries, mid, events[k], outcome, after)
    &&& match outcome {
        EventOutcome::Replayed(_) => false,
        EventOutcome::Desync(e, last) => match r {
            IpcSelecting::Desync(found, kept, came) => {
                &&& found == e
                &&& kept@ == results
                &&& came == last
            },
            _ => false,
        },
        EventOutcome::Unreadable => r == IpcSelecting::<A, E>::Fatal(Fatal::UnreadableSender),
    }
}

/// The replay of a logged select.
pub open spec fn events_step<R, A, E>(
    tries: spec_fn(R, Attempt<A>) -> bool,
    before: SetView<R, A>,
    events: Seq<IpcSelectEventView>,
    r: IpcSelecting<A, E>,
    after: SetView<R, A>,
) -> bool {
    match r {
        IpcSelecting::Selected(Ok(results)) => events_replayed(
            tries,
            before,
            events,
            results@,
            after,
        ),
        IpcSelecting::Selected(Err(_)) => false,
        _ => exists|
            k: int,
            results: Seq<IpcSelectionResult<A>>,
            mid: SetView<R, A>,
            outcome: EventOutcome<A>,
        | #[trigger]
            failed_at(tries, before, events, k, results, mid, outcome, r, after),
    }
}

/// `r` reports the desynchronization `why`, and nothing was replayed.
pub open spec fn ipc_desync<A, E>(r: IpcSelecting<A, E>, why: DesyncErrorView) -> bool {
    match r {
        IpcSelecting::Desync(e, results, last) => {
            e@ == why && results@.len() == 0 && last is None
        },
        _ => false,
    }
}

/// `selected` is written to the log and handed on.
pub open spec fn recorded_selection<A, E>(
    selected: Result<Vec<IpcSelectionResult<A>>, E>,
    thread: ThreadView,
    r: IpcSelecting<A, E>,
    thread_after: ThreadView,
) -> bool {
    match selected {
        Err(e) => r == IpcSelecting::<A, E>::Selected(Err(e)) && thread_after == thread,
        Ok(results) => if !readable(results@) {
            r == IpcSelecting::<A, E>::Fatal(Fatal::UnreadableSender) && thread_after == thread
        } else {
            let event = TivoEventView::IpcSelect { select_events: events_of(results@) };
            &&& thread_after == thread.with_log(
                after_write(thread.log, entry_of(event, select_metadata()), r is Selected),
            )
            &&& match r {
                IpcSelecting::Selected(v) => v == selected,
                IpcSelecting::Desync(_, _, _) => false,
                IpcSelecting::Fatal(f) => match f {
                    Fatal::LogFailed(e) => e@ == DesyncErrorView::CannotWriteEventToLog(
                        entry_of(event, select_metadata()),
                    ),
                    _ => false,
                },
            }
            &&& write_gave(thread.log, entry_of(event, select_metadata()), r is Selected)
        },
    }
}

/// A select in each of the modes: `selects` tells what a select of the real set may give.
pub open spec fn ipc_select_relation<R, A, E>(
    set: IpcReceiverSet<R, A>,
    selects: spec_fn(Result<Vec<IpcSelectionResult<A>>, E>) -> bool,
    tries: spec_fn(R, Attempt<A>) -> bool,
    thread: ThreadView,
    r: IpcSelecting<A, E>,
    thread_after: ThreadView,
    after: SetView<R, A>,
) -> bool {
    if thread.desynced {
        &&& ipc_desync(r, DesyncErrorView::Desynchronized)
        &&& thread_after == thread
        &&& after == set@
    } else {
        match set.mode {
            RRMode::Record => {
                &&& after == set@
                &&& exists|selected: Result<Vec<IpcSelectionResult<A>>, E>|
                    {
                        &&& selects(selected)
                        &&& #[trigger] recorded_selection(selected, thread, r, thread_after)
                    }
            },
            RRMode::Replay => if set.desynced {
                &&& ipc_desync(r, DesyncErrorView::Desynchronized)
                &&& thread_after == thread
                &&& after == set@
            } else {
                &&& thread_after == thread.with_log(after_fetch(thread.log))
                &&& if thread.log.remaining.len() == 0 {
                    ipc_desync(r, DesyncErrorView::NoEntryInLog) && after == set@
                } else {
                    match thread.log.remaining[0].event {
                        TivoEventView::IpcSelect { select_events } => events_step(
                            tries,
                            set@,
                            select_events,
                            r,
                            after,
                        ),
                        event => {
                            &&& after == set@
                            &&& ipc_desync(
                                r,
                                DesyncErrorView::EventMismatch(
                                    event,
                                    TivoEventView::IpcSelect {
                                        select_events: Seq::<IpcSelectEventView>::empty(),
                                    },
                                ),
                            )
                        },
                    }
                }
            },
            RRMode::NoRR => {
                &&& after == set@
                &&& thread_after == thread
                &&& exists|selected: Result<Vec<IpcSelectionResult<A>>, E>| #[trigger]
                    selects(selected) && r == IpcSelecting::<A, E>::Selected(selected)
            },
        }
    }
}

/// Writes the results of a select to the log and hands them on.
pub fn record_selection<A, E>(
    thread: &mut ThreadState,
    selected: Result<Vec<IpcSelectionResult<A>>, E>,
) -> (r: IpcSelecting<A, E>)
    ensures
        recorded_selection(selected, old(thread)@, r, final(thread)@),
{
    match selected {
        Err(e) => IpcSelecting::Selected(Err(e)),
        Ok(results) => {
            let events = match recorded_events(&results) {
                Some(events) => events,
                None => {
                    return IpcSelecting::Fatal(Fatal::UnreadableSender);
                },
            };
            let event = TivoEvent::IpcSelect { select_events: events };
            let metadata = RecordMetadata::new(
                "IpcSelect".to_string(),
                ChannelVariant::IpcSelect,
                DetChannelId::fake(),
            );
            match thread.recorder.write_event_to_record(event, &metadata) {
                Ok(_) => IpcSelecting::Selected(Ok(results)),
                Err(e) => IpcSelecting::Fatal(Fatal::LogFailed(e)),
            }
        },
    }
}

impl<R, A> IpcReceiverSet<R, A> {
    /// Replays the results of a logged select, one after the other.
    fn replay_select<E, F: CallsAt<R, Attempt<A>>, S: Fn()>(
        &mut self,
        select_events: Vec<IpcSelectEvent>,
        tap: &mut SetTap<F, R, Attempt<A>>,
        pause: &S,
    ) -> (r: IpcSelecting<A, E>)
        requires
            old(self).wf(),
            !old(self).desynced,
            ready_for_all::<R, Attempt<A>, F>(old(tap).calls()),
            call_requires(*pause, ()),
        ensures
            final(self).wf(),
            final(self).same_set(*old(self)),
            final(tap).calls() == old(tap).calls(),
            events_step(
                gives_each(old(tap).calls()),
                old(self)@,
                select_events_view(select_events@),
                r,
                final(self)@,
            ),
            old(tap).seen().is_prefix_of(final(tap).seen()),
            select_takes(
                old(self)@,
                since(old(tap).seen(), final(tap).seen()),
                select_events_view(select_events@),
                r,
                final(self)@,
            ),
    {
        let ghost tries = gives_each::<R, Attempt<A>, F>(tap.calls());
        let ghost earlier = tap.seen();
        let ghost queues = self@.queues;
        let ghost ends = real_ends(self@.receivers);
        proof {
            assert(since(earlier, earlier) =~= Seq::<(int, R, Attempt<A>)>::empty());
            lemma_set_idle::<Seq<u32>, R, A>(sender_in(), queues);
        }
        let ghost logged = select_events_view(select_events@);
        let mut events: Vec<IpcSelectionResult<A>> = Vec::new();
        let mut k: usize = 0;
        assert(logged.take(0) =~= Seq::<IpcSelectEventView>::empty());
        assert(slots_of(logged.take(0)) =~= Seq::<Option<(int, Seq<u32>)>>::empty());
        while k < select_events.len()
            invariant
                k <= select_events@.len(),
                logged == select_events_view(select_events@),
                tries == gives_each::<R, Attempt<A>, F>(tap.calls()),
                tap.calls() == old(tap).calls(),
                earlier == old(tap).seen(),
                queues == old(self)@.queues,
                ends == real_ends(old(self)@.receivers),
                ends == real_ends(self@.receivers),
                earlier.is_prefix_of(tap.seen()),
                on_receivers(since(earlier, tap.seen()), ends),
                set_accounted(
                    sender_in(),
                    queues,
                    since(earlier, tap.seen()),
                    slots_of(logged.take(k as int)),
                    events@,
                    None,
                    self@.queues,
                ),
                self.wf(),
                !self.desynced,
                self.same_set(*old(self)),
                ready_for_all::<R, Attempt<A>, F>(tap.calls()),
                call_requires(*pause, ()),
                events_replayed(tries, old(self)@, logged.take(k as int), events@, self@),
            decreases select_events@.len() - k,
        {
            let ghost mid = self@;
            let ghost results = events@;
            let ghost before = tap.seen();
            let outcome = self.replay_select_event(&select_events[k], tap, pause);
            let ghost seen = outcome;
            proof {
                let first = since(earlier, before);
                let second = since(before, tap.seen());
                assert(since(earlier, tap.seen()) =~= first + second);
                assert(on_receivers(first + second, ends));
                let slots = slots_of(logged.take(k as int));
                assert(logged.take(k as int).push(logged[k as int]) =~= logged.take(k + 1));
                assert(slots_of(logged.take(k + 1)) =~= slots.push(slot_of(logged[k as int])));
                let (more_slots, more, last) = match seen {
                    EventOutcome::Replayed(result) => (
                        seq![slot_of(logged[k as int])],
                        seq![result],
                        None::<IpcSelectionResult<A>>,
                    ),
                    EventOutcome::Desync(_, last) => (Seq::empty(), Seq::empty(), last),
                    EventOutcome::Unreadable => (Seq::empty(), Seq::empty(), None),
                };
                if !(seen is Unreadable) {
                    lemma_set_chain(
                        sender_in(),
                        queues,
                        first,
                        slots,
                        results,
                        mid.queues,
                        second,
                        more_slots,
                        more,
                        last,
                        self@.queues,
                    );
                }
                if seen is Replayed {
                    assert(slots + more_slots =~= slots.push(slot_of(logged[k as int])));
                    assert(results + more =~= results.push(more[0]));
                } else {
                    assert(slots + more_slots =~= slots);
                    assert(results + more =~= results);
                }
            }
            assert(event_step(tries, mid, logged[k as int], seen, self@));
            match outcome {
                EventOutcome::Replayed(entry) => {
                    proof {
                        lemma_one_more(
                            tries,
                            old(self)@,
                            logged.take(k as int),
                            results,
                            mid,
                            logged[k as int],
                            entry,
                            self@,
                        );
                        assert(logged.take(k as int).push(logged[k as int]) =~= logged.take(k + 1));
                    }
                    events.push(entry);
                },
                EventOutcome::Desync(error, entry) => {
                    let r = IpcSelecting::Desync(error, events, entry);
                    assert(failed_at(
                        tries,
                        old(self)@,
                        logged,
                        k as int,
                        results,
                        mid,
                        seen,
                        r,
                        self@,
                    ));
                    return r;
                },
                EventOutcome::Unreadable => {
                    let r = IpcSelecting::Fatal(Fatal::UnreadableSender);
                    assert(failed_at(
                        tries,
                        old(self)@,
                        logged,
                        k as int,
                        results,
                        mid,
                        seen,
                        r,
                        self@,
                    ));
                    return r;
                },
            }
            k += 1;
        }
        assert(logged.take(k as int) =~= logged);
        assert(tap.seen().is_prefix_of(tap.seen()));
        IpcSelecting::Selected(Ok(events))
    }

    /// Selects as the mode demands. While recording, the results are written to the log. While
    /// replaying, the log tells which receivers deliver a message or are closed.
    pub fn rr_select<
        E,
        L: FnOnce() -> Result<Vec<IpcSelectionResult<A>>, E>,
        F: CallsAt<R, Attempt<A>>,
        S: Fn(),
    >(
        &mut self,
        thread: &mut ThreadState,
        real_select: L,
        tap: &mut SetTap<F, R, Attempt<A>>,
        pause: &S,
    ) -> (r: IpcSelecting<A, E>)
        requires
            old(self).wf(),
            old(self).mode != RRMode::NoRR && !old(thread)@.desynced ==> old(thread)@.initialized,
            old(self).mode != RRMode::Replay && !old(thread)@.desynced ==> call_requires(
                real_select,
                (),
            ),
            ready_for_all::<R, Attempt<A>, F>(old(tap).calls()),
            call_requires(*pause, ()),
        ensures
            final(self).wf(),
            final(self).same_set(*old(self)),
            final(tap).calls() == old(tap).calls(),
            ipc_select_relation(
                *old(self),
                |selected: Result<Vec<IpcSelectionResult<A>>, E>|
                    call_ensures(real_select, (), selected),
                gives_each(old(tap).calls()),
                old(thread)@,
                r,
                final(thread)@,
                final(self)@,
            ),
            old(tap).seen().is_prefix_of(final(tap).seen()),
            rr_select_takes(
                *old(self),
                old(thread)@,
                since(old(tap).seen(), final(tap).seen()),
                r,
                final(self)@,
            ),
    {
        let ghost selects = |selected: Result<Vec<IpcSelectionResult<A>>, E>|
            call_ensures(real_select, (), selected);
        assert(since(tap.seen(), tap.seen()) =~= Seq::<(int, R, Attempt<A>)>::empty());
        if thread.desynced {
            return IpcSelecting::Desync(DesyncError::Desynchronized, Vec::new(), None);
        }
        match self.mode {
            RRMode::Record => {
                let selected = real_select();
                record_selection(thread, selected)
            },
            RRMode::Replay => {
                if self.desynced {
                    return IpcSelecting::Desync(DesyncError::Desynchronized, Vec::new(), None);
                }
                match thread.recorder.get_log_entry() {
                    Err(e) => IpcSelecting::Desync(e, Vec::new(), None),
                    Ok(entry) => match entry.event {
                        TivoEvent::IpcSelect { select_events } => self.replay_select(
                            select_events,
                            tap,
                            pause,
                        ),
                        event => {
                            let dummy = TivoEvent::IpcSelect { select_events: Vec::new() };
                            assert(dummy@ == (TivoEventView::IpcSelect {
                                select_events: Seq::<IpcSelectEventView>::empty(),
                            })) by {
                                assert(select_events_view(Seq::<IpcSelectEvent>::empty())
                                    =~= Seq::<IpcSelectEventView>::empty());
                            }
                            IpcSelecting::Desync(
                                DesyncError::EventMismatch(event, dummy),
                                Vec::new(),
                                None,
                            )
                        },
                    },
                }
            },
            RRMode::NoRR => {
                let selected = real_select();
                assert(selects(selected));
                IpcSelecting::Selected(selected)
            },
        }
    }
}

/// A select with the outcome `outcome` takes from the receivers what was seen, and is then settled.
pub open spec fn select_accounted<R, A, E>(
    before: IpcReceiverSet<R, A>,
    thread: ThreadView,
    seen: Arrivals<R, A>,
    outcome: IpcSelecting<A, E>,
    mid: ThreadView,
    set: IpcReceiverSet<R, A>,
    r: IpcSelectStep<R, A, E>,
    thread_after: ThreadView,
    after: IpcReceiverSet<R, A>,
) -> bool {
    &&& rr_select_takes(before, thread, seen, outcome, set@)
    &&& settled_ipc_select(outcome, mid, set, r, thread_after, after)
}

/// All calls of `try_recv` are accounted for by a select.
pub open spec fn calls_select<R, A, E, F>(
    try_recv: F,
    before: IpcReceiverSet<R, A>,
    thread: ThreadView,
    r: IpcSelectStep<R, A, E>,
    thread_after: ThreadView,
    after: IpcReceiverSet<R, A>,
) -> bool {
    exists|
        seen: Arrivals<R, A>,
        outcome: IpcSelecting<A, E>,
        mid: ThreadView,
        set: IpcReceiverSet<R, A>,
    |
        {
            &&& all_calls_at(try_recv, seen)
            &&& #[trigger] select_accounted(
                before,
                thread,
                seen,
                outcome,
                mid,
                set,
                r,
                thread_after,
                after,
            )
        }
}

/// A receiver that is to be added to the real set.
pub enum MovedReceiver<R> {
    Open(R),
    /// The channel was seen to be closed. A receiver of a channel that stays open and silent is to
    /// be added in its place, so that the end is not reported again and the indices stay the same.
    Dummy,
}

/// What is added to the real set for a receiver.
pub open spec fn moved<R>(receiver: OpaqueIpcReceiver<R>) -> MovedReceiver<R> {
    if receiver.closed {
        MovedReceiver::Dummy
    } else {
        MovedReceiver::Open(receiver.opaque_receiver)
    }
}

/// What is added to the real set, in the order of the indices.
pub open spec fn moved_receivers<R, A>(set: IpcReceiverSet<R, A>) -> Seq<MovedReceiver<R>> {
    if set.desynced {
        Seq::<MovedReceiver<R>>::empty()
    } else {
        set.receivers@.map_values(|receiver: OpaqueIpcReceiver<R>| moved(receiver))
    }
}

/// How many channels have to be created in place of closed ones.
pub open spec fn dummies<R>(to_move: Seq<MovedReceiver<R>>) -> nat
    decreases to_move.len(),
{
    if to_move.len() == 0 {
        0
    } else {
        dummies(to_move.drop_last()) + if to_move.last() is Dummy {
            1nat
        } else {
            0
        }
    }
}

/// One more id is used up.
pub(crate) proof fn lemma_next_id(id: u32, n: nat)
    ensures
        (((id + n) % 0x1_0000_0000) + 1) % 0x1_0000_0000 == (id + n + 1) % 0x1_0000_0000,
{
    let k = id + n;
    assert(((k % 0x1_0000_0000) + 1) % 0x1_0000_0000 == (k + 1) % 0x1_0000_0000)
        by (nonlinear_arith)
        requires
            k >= 0,
    ;
}

/// Every channel that is created in place of a closed one uses up an id of the thread.
fn use_up_ids<R>(thread: &mut ThreadState, to_move: &Vec<MovedReceiver<R>>)
    ensures
        final(thread)@ == old(thread)@.after_channels(dummies(to_move@)),
{
    let mut i: usize = 0;
    while i < to_move.len()
        invariant
            i <= to_move@.len(),
            thread@ == old(thread)@.after_channels(dummies(to_move@.take(i as int))),
        decreases to_move@.len() - i,
    {
        proof {
            assert(to_move@.take(i + 1).drop_last() =~= to_move@.take(i as int));
            lemma_next_id(old(thread)@.next_channel_id, dummies(to_move@.take(i as int)));
        }
        if let MovedReceiver::Dummy = to_move[i] {
            thread.next_channel_id = thread.next_channel_id.wrapping_add(1);
        }
        i += 1;
    }
    assert(to_move@.take(i as int) =~= to_move@);
}

/// The messages of one receiver as results of a select.
pub open spec fn as_results<A>(index: int, msgs: Seq<OpaqueIpcMessage<A>>) -> Seq<
    IpcSelectionResult<A>,
> {
    msgs.map_values(
        |msg: OpaqueIpcMessage<A>| IpcSelectionResult::MessageReceived(index as u64, msg),
    )
}

/// The messages of all receivers as results of a select: `parts` holds those of each receiver.
pub open spec fn joined_results<A>(parts: Seq<Seq<OpaqueIpcMessage<A>>>) -> Seq<
    IpcSelectionResult<A>,
>
    decreases parts.len(),
{
    if parts.len() == 0 {
        Seq::<IpcSelectionResult<A>>::empty()
    } else {
        joined_results(parts.drop_last()) + as_results(parts.len() - 1, parts.last())
    }
}

/// `entries` are all messages that are kept, those of one sender in the order in which they came.
pub open spec fn all_buffered<A>(
    queues: Seq<Map<Seq<u32>, Seq<OpaqueIpcMessage<A>>>>,
    entries: Seq<IpcSelectionResult<A>>,
) -> bool {
    exists|parts: Seq<Seq<OpaqueIpcMessage<A>>>|
        {
            &&& parts.len() == queues.len()
            &&& forall|i: int|
                0 <= i < queues.len() ==> drained(#[trigger] queues[i], parts[i])
            &&& entries == #[trigger] joined_results(parts)
        }
}

/// The same items, last one first.
pub(crate) fn reverse<T>(items: Vec<T>) -> (reversed: Vec<T>)
    ensures
        reversed@ == items@.reverse(),
{
    let ghost all = items@;
    let mut items = items;
    let mut reversed: Vec<T> = Vec::new();
    while items.len() > 0
        invariant
            reversed@.len() + items@.len() == all.len(),
            items@ == all.take(items@.len() as int),
            forall|j: int|
                0 <= j < reversed@.len() ==> #[trigger] reversed@[j] == all[all.len() - 1 - j],
        decreases items@.len(),
    {
        match items.pop() {
            Some(item) => {
                reversed.push(item);
            },
            None => {},
        }
        assert(items@ =~= all.take(items@.len() as int));
    }
    assert(reversed@ =~= all.reverse());
    reversed
}

impl<R, A> IpcReceiverSet<R, A> {
    /// Gives up the replay: all receivers are to be added to the real set, in this order. Their
    /// indices then stay the same. Nothing is left to move the next time.
    pub fn move_receivers_to_set(&mut self) -> (to_move: Vec<MovedReceiver<R>>)
        requires
            old(self).wf(),
        ensures
            final(self).wf(),
            to_move@ == moved_receivers(*old(self)),
            final(self).desynced,
            final(self).mode == old(self).mode,
            final(self).index == old(self).index,
            final(self)@.queues == old(self)@.queues,
            final(self)@.receivers.len() == 0,
    {
        let mut to_move: Vec<MovedReceiver<R>> = Vec::new();
        if !self.desynced {
            let mut receivers: Vec<OpaqueIpcReceiver<R>> = Vec::new();
            std::mem::swap(&mut self.receivers, &mut receivers);
            self.desynced = true;
            let ghost all = receivers@;
            let mut reversed: Vec<OpaqueIpcReceiver<R>> = reverse(receivers);
            while reversed.len() > 0
                invariant
                    to_move@.len() + reversed@.len() == all.len(),
                    forall|j: int|
                        0 <= j < reversed@.len() ==> #[trigger] reversed@[j] == all[all.len() - 1
                            - j],
                    forall|j: int|
                        0 <= j < to_move@.len() ==> #[trigger] to_move@[j] == moved(all[j]),
                decreases reversed@.len(),
            {
                match reversed.pop() {
                    Some(r) => {
                        if r.closed {
                            to_move.push(MovedReceiver::Dummy);
                        } else {
                            to_move.push(MovedReceiver::Open(r.opaque_receiver));
                        }
                    },
                    None => {},
                }
            }
            assert(to_move@ =~= moved_receivers(*old(self)));
        }
        assert(to_move@ =~= moved_receivers(*old(self)));
        to_move
    }

    /// Takes all messages that are kept, as if they were the results of a select.
    pub fn get_buffered_entries(&mut self) -> (entries: Option<Vec<IpcSelectionResult<A>>>)
        requires
            old(self).wf(),
        ensures
            final(self).wf(),
            final(self).same_set(*old(self)),
            final(self)@.receivers == old(self)@.receivers,
            final(self)@.queues.len() == old(self)@.queues.len(),
            forall|i: int|
                0 <= i < final(self)@.queues.len() ==> all_empty(
                    #[trigger] final(self)@.queues[i],
                ),
            match entries {
                Some(entries) => entries@.len() > 0 && all_buffered(
                    old(self)@.queues,
                    entries@,
                ),
                None => all_buffered(old(self)@.queues, Seq::<IpcSelectionResult<A>>::empty()),
            },
    {
        let mut entries: Vec<IpcSelectionResult<A>> = Vec::new();
        let ghost mut parts: Seq<Seq<OpaqueIpcMessage<A>>> = Seq::empty();
        let ghost queues = self@.queues;
        let mut i: usize = 0;
        while i < self.buffer.len()
            invariant
                i <= self.buffer@.len(),
                self.wf(),
                self.same_set(*old(self)),
                self.receivers == old(self).receivers,
                self.buffer@.len() == old(self).buffer@.len(),
                queues == old(self)@.queues,
                forall|j: int|
                    i <= j < self.buffer@.len() ==> #[trigger] self.buffer@[j]
                        == old(self).buffer@[j],
                forall|j: int|
                    0 <= j < i ==> all_empty(contents(#[trigger] self.buffer@[j])),
                parts.len() == i,
                forall|j: int| 0 <= j < i ==> drained(#[trigger] queues[j], parts[j]),
                entries@ == joined_results(parts),
            decreases self.buffer@.len() - i,
        {
            let ghost before = parts;
            let msgs = self.buffer[i].drain_messages();
            proof {
                parts = parts.push(msgs@);
                assert(parts.drop_last() =~= before);
            }
            push_results(i as u64, msgs, &mut entries);
            i += 1;
        }
        if entries.len() == 0 {
            assert(entries@ =~= Seq::<IpcSelectionResult<A>>::empty());
            None
        } else {
            Some(entries)
        }
    }
}

/// Puts together what a select hands out when the replay is given up.
pub(crate) fn join_entries<A>(
    kept: Vec<IpcSelectionResult<A>>,
    buffered: Option<Vec<IpcSelectionResult<A>>>,
    last: Option<IpcSelectionResult<A>>,
) -> (entries: Option<Vec<IpcSelectionResult<A>>>)
    ensures
        ({
            let found = match buffered {
                Some(found) => found@,
                None => Seq::<IpcSelectionResult<A>>::empty(),
            };
            match entries {
                Some(entries) => entries@.len() > 0 && entries@ == with_last(kept@ + found, last),
                None => kept@.len() == 0 && found.len() == 0 && last is None,
            }
        }),
{
    let mut entries = kept;
    assert(kept@ + Seq::<IpcSelectionResult<A>>::empty() =~= kept@);
    match buffered {
        Some(found) => {
            let mut found = found;
            entries.append(&mut found);
        },
        None => {},
    }
    match last {
        Some(result) => {
            entries.push(result);
        },
        None => {},
    }
    if entries.len() == 0 {
        None
    } else {
        Some(entries)
    }
}

/// Adds messages from the receiver at `index` to the results of a select.
pub(crate) fn push_results<A>(
    index: u64,
    msgs: Vec<OpaqueIpcMessage<A>>,
    entries: &mut Vec<IpcSelectionResult<A>>,
)
    ensures
        final(entries)@ == old(entries)@ + as_results(index as int, msgs@),
{
    let ghost all = msgs@;
    let mut reversed: Vec<OpaqueIpcMessage<A>> = reverse(msgs);
    let ghost mut done: int = 0;
    assert(all.take(0) =~= Seq::<OpaqueIpcMessage<A>>::empty());
    assert(entries@ =~= old(entries)@ + as_results(index as int, all.take(0)));
    while reversed.len() > 0
        invariant
            done + reversed@.len() == all.len(),
            0 <= done,
            forall|j: int|
                0 <= j < reversed@.len() ==> #[trigger] reversed@[j] == all[all.len() - 1 - j],
            entries@ == old(entries)@ + as_results(index as int, all.take(done)),
        decreases reversed@.len(),
    {
        match reversed.pop() {
            Some(msg) => {
                entries.push(IpcSelectionResult::MessageReceived(index, msg));
                proof {
                    done = done + 1;
                }
                assert(entries@ =~= old(entries)@ + as_results(index as int, all.take(done)));
            },
            None => {},
        }
    }
    assert(all.take(done) =~= all);
}

/// Why a receiver described by `metadata` cannot be the one that was logged, if so. `index` is the
/// next index, and `count` how many receivers there are.
pub open spec fn add_mismatch(
    entry: EntryView,
    index: u64,
    count: nat,
    metadata: MetadataView,
) -> Option<DesyncErrorView> {
    match entry.event {
        TivoEventView::IpcSelectAdd(expected_index) => if expected_index != index {
            Some(DesyncErrorView::SelectIndexMismatch(expected_index, index))
        } else if index < count {
            Some(DesyncErrorView::SelectExistingEntry(index))
        } else {
            channel_mismatch(entry, metadata)
        },
        event => Some(DesyncErrorView::EventMismatch(event, TivoEventView::IpcSelectAdd(index))),
    }
}

/// The outcome of an attempt to add a receiver.
pub enum Adding<R, E> {
    Added(Result<u64, E>),
    /// The receiver was not added.
    Refused(DesyncError, OpaqueIpcReceiver<R>),
    /// The receiver was added, but the log cannot be written.
    LogFailed(DesyncError),
}

/// How far the addition of a receiver came.
pub enum AddStep<R, E> {
    Done(Result<u64, E>),
    /// The replay is given up. All receivers of `to_move` are to be added to the real set, in this
    /// order, and `receiver` after them.
    Desync { to_move: Vec<MovedReceiver<R>>, receiver: R },
    /// The run cannot go on.
    Panic(DesyncError),
}

/// How far a select came.
pub enum IpcSelectStep<R, A, E> {
    Done(Result<Vec<IpcSelectionResult<A>>, E>),
    /// The thread ran off the end of its log. It has to sleep until the program is
    /// desynchronized.
    Sleep,
    /// The replay is given up. All receivers of `to_move` are to be added to the real set, in this
    /// order. Then the result is `entries`, or that of a select of the real set if there are none.
    Desync { to_move: Vec<MovedReceiver<R>>, entries: Option<Vec<IpcSelectionResult<A>>> },
    /// The replay cannot go on.
    Panic(DesyncError),
    /// Nothing can be selected any more.
    Fatal(Fatal),
}

/// A receiver that the real set was given is logged.
pub open spec fn recorded_add<R, E>(
    added: Result<u64, E>,
    metadata: MetadataView,
    thread: ThreadView,
    r: Adding<R, E>,
    thread_after: ThreadView,
) -> bool {
    match added {
        Err(_) => r == Adding::<R, E>::Added(added) && thread_after == thread,
        Ok(index) => {
            &&& thread_after == thread.with_log(
                after_write(
                    thread.log,
                    entry_of(TivoEventView::IpcSelectAdd(index), metadata),
                    r is Added,
                ),
            )
            &&& match r {
                Adding::Added(v) => v == added,
                Adding::Refused(_, _) => false,
                Adding::LogFailed(e) => e@ == DesyncErrorView::CannotWriteEventToLog(
                    entry_of(TivoEventView::IpcSelectAdd(index), metadata),
                ),
            }
            &&& write_gave(
                thread.log,
                entry_of(TivoEventView::IpcSelectAdd(index), metadata),
                r is Added,
            )
        },
    }
}

/// The receiver comes back, and the set is as it was.
pub open spec fn add_refused<R, A, E>(
    before: IpcReceiverSet<R, A>,
    why: DesyncErrorView,
    receiver: OpaqueIpcReceiver<R>,
    r: Adding<R, E>,
    after: IpcReceiverSet<R, A>,
) -> bool {
    &&& after == before
    &&& match r {
        Adding::Refused(e, back) => e@ == why && back == receiver,
        _ => false,
    }
}

/// The addition of a receiver in each of the modes: `adds` tells what the real set may give.
pub open spec fn add_relation<R, A, E>(
    before: IpcReceiverSet<R, A>,
    receiver: OpaqueIpcReceiver<R>,
    adds: spec_fn(R, Result<u64, E>) -> bool,
    thread: ThreadView,
    r: Adding<R, E>,
    thread_after: ThreadView,
    after: IpcReceiverSet<R, A>,
) -> bool {
    if thread.desynced || before.desynced {
        &&& thread_after == thread
        &&& add_refused(before, DesyncErrorView::Desynchronized, receiver, r, after)
    } else {
        match before.mode {
            RRMode::Record => {
                &&& after == before
                &&& exists|added: Result<u64, E>|
                    {
                        &&& adds(receiver.opaque_receiver, added)
                        &&& #[trigger] recorded_add(
                            added,
                            receiver.metadata@,
                            thread,
                            r,
                            thread_after,
                        )
                    }
            },
            RRMode::Replay => {
                &&& thread_after == thread.with_log(after_fetch(thread.log))
                &&& if thread.log.remaining.len() == 0 {
                    add_refused(before, DesyncErrorView::NoEntryInLog, receiver, r, after)
                } else {
                    match add_mismatch(
                        thread.log.remaining[0],
                        before.index,
                        before@.receivers.len(),
                        receiver.metadata@,
                    ) {
                        Some(e) => add_refused(before, e, receiver, r, after),
                        None => {
                            &&& r == Adding::<R, E>::Added(Ok(before.index))
                            &&& after.mode == before.mode
                            &&& !after.desynced
                            &&& after.index == before.index + 1
                            &&& after@.receivers == before@.receivers.push(receiver)
                            &&& after@.queues == before@.queues.push(
                                Map::<Seq<u32>, Seq<OpaqueIpcMessage<A>>>::empty(),
                            )
                        },
                    }
                }
            },
            RRMode::NoRR => {
                &&& after == before
                &&& thread_after == thread
                &&& exists|added: Result<u64, E>| #[trigger]
                    adds(receiver.opaque_receiver, added) && r == Adding::<R, E>::Added(added)
            },
        }
    }
}

/// What becomes of the outcome of an addition. On a desynchronization in the mode `KeepGoing` the
/// set gives up all its receivers. Channels that stand for closed ones use up ids of the thread.
pub open spec fn settled_add<R, A, E>(
    outcome: Adding<R, E>,
    thread: ThreadView,
    set: IpcReceiverSet<R, A>,
    r: AddStep<R, E>,
    thread_after: ThreadView,
    after: IpcReceiverSet<R, A>,
) -> bool {
    match outcome {
        Adding::Added(v) => r == AddStep::<R, E>::Done(v) && thread_after == thread && after == set,
        Adding::LogFailed(e) => {
            r == AddStep::<R, E>::Panic(e) && thread_after == thread && after == set
        },
        Adding::Refused(e, receiver) => match thread.desync_mode {
            DesyncMode::Panic => {
                r == AddStep::<R, E>::Panic(e) && thread_after == thread && after == set
            },
            DesyncMode::KeepGoing => {
                &&& thread_after == thread.marked().after_channels(dummies(moved_receivers(set)))
                &&& match r {
                    AddStep::Desync { to_move, receiver: back } => {
                        &&& to_move@ == moved_receivers(set)
                        &&& back == receiver.opaque_receiver
                    },
                    _ => false,
                }
                &&& after.desynced
                &&& after.mode == set.mode
                &&& after.index == set.index
                &&& after@.receivers.len() == 0
                &&& after@.queues == set@.queues
            },
        },
    }
}

/// The addition of a receiver, together with what the thread does on a desynchronization.
pub open spec fn add_step<R, A, E>(
    before: IpcReceiverSet<R, A>,
    receiver: OpaqueIpcReceiver<R>,
    adds: spec_fn(R, Result<u64, E>) -> bool,
    thread: ThreadView,
    r: AddStep<R, E>,
    thread_after: ThreadView,
    after: IpcReceiverSet<R, A>,
) -> bool {
    exists|outcome: Adding<R, E>, mid: ThreadView, set: IpcReceiverSet<R, A>|
        {
            &&& add_relation(before, receiver, adds, thread, outcome, mid, set)
            &&& #[trigger] settled_add(outcome, mid, set, r, thread_after, after)
        }
}

/// What a select hands out when the replay is given up: the results `kept` that were replayed before,
/// all messages that are kept, and what came instead of the logged result. Messages of one sender
/// stay in the order in which they came, and the end of a channel comes behind its messages.
pub open spec fn given_up<A>(
    queues: Seq<Map<Seq<u32>, Seq<OpaqueIpcMessage<A>>>>,
    kept: Seq<IpcSelectionResult<A>>,
    last: Option<IpcSelectionResult<A>>,
    entries: Option<Vec<IpcSelectionResult<A>>>,
) -> bool {
    exists|buffered: Seq<IpcSelectionResult<A>>| #[trigger]
        all_buffered(queues, buffered) && match entries {
            Some(entries) => entries@.len() > 0 && entries@ == with_last(kept + buffered, last),
            None => kept.len() == 0 && buffered.len() == 0 && last is None,
        }
}

/// What a select does on the desynchronization `desync`, where `kept` was replayed before and `last`
/// came instead of the next result. In the mode `KeepGoing` the set gives up all its receivers and
/// the messages that it keeps. Channels that stand for closed ones use up ids of the thread.
pub open spec fn desync_ipc_select<R, A, E>(
    desync: DesyncErrorView,
    kept: Seq<IpcSelectionResult<A>>,
    last: Option<IpcSelectionResult<A>>,
    thread: ThreadView,
    set: IpcReceiverSet<R, A>,
    r: IpcSelectStep<R, A, E>,
    thread_after: ThreadView,
    after: IpcReceiverSet<R, A>,
) -> bool {
    match thread.desync_mode {
        DesyncMode::Panic => {
            &&& r matches IpcSelectStep::Panic(e)
            &&& e@ == desync
            &&& thread_after == thread
            &&& after == set
        },
        DesyncMode::KeepGoing => {
            &&& thread_after == thread.marked().after_channels(dummies(moved_receivers(set)))
            &&& match r {
                IpcSelectStep::Desync { to_move, entries } => {
                    &&& to_move@ == moved_receivers(set)
                    &&& given_up(set@.queues, kept, last, entries)
                },
                _ => false,
            }
            &&& after.desynced
            &&& after.mode == set.mode
            &&& after.index == set.index
            &&& after@.receivers.len() == 0
            &&& after@.queues.len() == set@.queues.len()
            &&& forall|i: int|
                0 <= i < after@.queues.len() ==> all_empty(#[trigger] after@.queues[i])
        },
    }
}

/// What becomes of the outcome of a select.
pub open spec fn settled_ipc_select<R, A, E>(
    outcome: IpcSelecting<A, E>,
    thread: ThreadView,
    set: IpcReceiverSet<R, A>,
    r: IpcSelectStep<R, A, E>,
    thread_after: ThreadView,
    after: IpcReceiverSet<R, A>,
) -> bool {
    match outcome {
        IpcSelecting::Selected(v) => {
            r == IpcSelectStep::<R, A, E>::Done(v) && thread_after == thread && after == set
        },
        IpcSelecting::Fatal(f) => {
            r == IpcSelectStep::<R, A, E>::Fatal(f) && thread_after == thread && after == set
        },
        IpcSelecting::Desync(DesyncError::NoEntryInLog, _, _) => {
            r is Sleep && thread_after == thread && after == set
        },
        IpcSelecting::Desync(e, kept, last) => desync_ipc_select(
            e@,
            kept@,
            last,
            thread,
            set,
            r,
            thread_after,
            after,
        ),
    }
}

/// A select, together with what the thread does on a desynchronization.
pub open spec fn ipc_select_step<R, A, E>(
    before: IpcReceiverSet<R, A>,
    selects: spec_fn(Result<Vec<IpcSelectionResult<A>>, E>) -> bool,
    tries: spec_fn(R, Attempt<A>) -> bool,
    thread: ThreadView,
    r: IpcSelectStep<R, A, E>,
    thread_after: ThreadView,
    after: IpcReceiverSet<R, A>,
) -> bool {
    exists|outcome: IpcSelecting<A, E>, mid: ThreadView, set: IpcReceiverSet<R, A>|
        {
            &&& ipc_select_relation(before, selects, tries, thread, outcome, mid, set@)
            &&& set.same_set(before)
            &&& #[trigger] settled_ipc_select(outcome, mid, set, r, thread_after, after)
        }
}

/// Writes to the log what the real set gave for a new receiver, and hands it on.
pub fn record_added<R, E>(
    thread: &mut ThreadState,
    metadata: &RecordMetadata,
    added: Result<u64, E>,
) -> (r: Adding<R, E>)
    ensures
        recorded_add(added, metadata@, old(thread)@, r, final(thread)@),
{
    match added {
        Err(_) => Adding::Added(added),
        Ok(index) => {
            let event = TivoEvent::IpcSelectAdd(index);
            match thread.recorder.write_event_to_record(event, metadata) {
                Ok(_) => Adding::Added(Ok(index)),
                Err(e) => Adding::LogFailed(e),
            }
        },
    }
}

impl<R, A> IpcReceiverSet<R, A> {
    /// Checks that the receiver described by `metadata` is the one that was logged.
    pub fn rr_add_check_mismatch(
        &self,
        recorded_entry: RecordEntry,
        metadata: &RecordMetadata,
    ) -> (r: Result<(), DesyncError>)
        ensures
            reports(
                r,
                add_mismatch(recorded_entry@, self.index, self.receivers@.len(), metadata@),
            ),
    {
        match &recorded_entry.event {
            TivoEvent::IpcSelectAdd(expected_index) => {
                if *expected_index != self.index {
                    return Err(DesyncError::SelectIndexMismatch(*expected_index, self.index));
                }
                if self.index < self.receivers.len() as u64 {
                    return Err(DesyncError::SelectExistingEntry(self.index));
                }
                recorded_entry.check_mismatch(metadata)
            },
            event => Err(
                DesyncError::EventMismatch(event.clone(), TivoEvent::IpcSelectAdd(self.index)),
            ),
        }
    }

    /// Adds a receiver as the mode demands. While replaying, it is kept here.
    pub fn rr_add<E, F: FnOnce(R) -> Result<u64, E>>(
        &mut self,
        thread: &mut ThreadState,
        receiver: OpaqueIpcReceiver<R>,
        real_add: F,
    ) -> (r: Adding<R, E>)
        requires
            old(self).wf(),
            old(self).index < u64::MAX,
            old(self).mode != RRMode::NoRR && !old(thread)@.desynced && !old(self).desynced
                ==> old(thread)@.initialized,
            forall|receiver: R| #[trigger] call_requires(real_add, (receiver,)),
        ensures
            final(self).wf(),
            add_relation(
                *old(self),
                receiver,
                |receiver: R, added: Result<u64, E>| call_ensures(real_add, (receiver,), added),
                old(thread)@,
                r,
                final(thread)@,
                *final(self),
            ),
    {
        let ghost adds = |receiver: R, added: Result<u64, E>|
            call_ensures(real_add, (receiver,), added);
        if thread.desynced {
            return Adding::Refused(DesyncError::Desynchronized, receiver);
        }
        if self.desynced {
            return Adding::Refused(DesyncError::Desynchronized, receiver);
        }
        match self.mode {
            RRMode::Record => {
                let OpaqueIpcReceiver { opaque_receiver, metadata, closed: _ } = receiver;
                let added = real_add(opaque_receiver);
                record_added(thread, &metadata, added)
            },
            RRMode::Replay => {
                let record_entry = match thread.recorder.get_log_entry() {
                    Err(e) => {
                        return Adding::Refused(e, receiver);
                    },
                    Ok(v) => v,
                };
                let index: u64 = self.index;
                match self.rr_add_check_mismatch(record_entry, &receiver.metadata) {
                    Err(e) => {
                        return Adding::Refused(e, receiver);
                    },
                    Ok(_) => {},
                }
                self.receivers.push(receiver);
                self.buffer.push(ThreadMap::new());
                self.index = self.index + 1;
                assert(contents(self.buffer@.last()) =~= Map::<
                    Seq<u32>,
                    Seq<OpaqueIpcMessage<A>>,
                >::empty());
                assert(self@.queues =~= old(self)@.queues.push(
                    Map::<Seq<u32>, Seq<OpaqueIpcMessage<A>>>::empty(),
                ));
                Adding::Added(Ok(index))
            },
            RRMode::NoRR => {
                let ghost handed = receiver.opaque_receiver;
                let added = real_add(receiver.opaque_receiver);
                assert(adds(handed, added));
                Adding::Added(added)
            },
        }
    }

    /// Adds a receiver whose messages are not decoded.
    pub fn add_opaque<E, F: FnOnce(R) -> Result<u64, E>>(
        &mut self,
        thread: &mut ThreadState,
        receiver: OpaqueIpcReceiver<R>,
        real_add: F,
    ) -> (r: AddStep<R, E>)
        requires
            old(self).wf(),
            old(self).index < u64::MAX,
            old(self).mode != RRMode::NoRR && !old(thread)@.desynced && !old(self).desynced
                ==> old(thread)@.initialized,
            forall|receiver: R| #[trigger] call_requires(real_add, (receiver,)),
        ensures
            final(self).wf(),
            add_step(
                *old(self),
                receiver,
                |receiver: R, added: Result<u64, E>| call_ensures(real_add, (receiver,), added),
                old(thread)@,
                r,
                final(thread)@,
                *final(self),
            ),
    {
        let ghost adds = |receiver: R, added: Result<u64, E>|
            call_ensures(real_add, (receiver,), added);
        let ghost handed = receiver;
        let outcome = self.rr_add(thread, receiver, real_add);
        let ghost seen = outcome;
        let ghost mid = thread@;
        let ghost set = *self;
        assert(add_relation(*old(self), handed, adds, old(thread)@, seen, mid, set));
        let r = match outcome {
            Adding::Added(v) => AddStep::Done(v),
            Adding::LogFailed(e) => AddStep::Panic(e),
            Adding::Refused(e, receiver) => match thread.desync_mode {
                DesyncMode::Panic => AddStep::Panic(e),
                DesyncMode::KeepGoing => {
                    mark_program_as_desynced(thread);
                    let to_move = self.move_receivers_to_set();
                    use_up_ids(thread, &to_move);
                    AddStep::Desync { to_move, receiver: receiver.opaque_receiver }
                },
            },
        };
        assert(settled_add(seen, mid, set, r, thread@, *self));
        r
    }

    /// Adds a receiver.
    pub fn add<T, E, F: FnOnce(R) -> Result<u64, E>>(
        &mut self,
        thread: &mut ThreadState,
        receiver: IpcReceiver<T>,
        real_receiver: R,
        real_add: F,
    ) -> (r: AddStep<R, E>)
        requires
            old(self).wf(),
            old(self).index < u64::MAX,
            old(self).mode != RRMode::NoRR && !old(thread)@.desynced && !old(self).desynced
                ==> old(thread)@.initialized,
            forall|receiver: R| #[trigger] call_requires(real_add, (receiver,)),
        ensures
            final(self).wf(),
            add_step(
                *old(self),
                OpaqueIpcReceiver {
                    opaque_receiver: real_receiver,
                    metadata: receiver.metadata,
                    closed: false,
                },
                |receiver: R, added: Result<u64, E>| call_ensures(real_add, (receiver,), added),
                old(thread)@,
                r,
                final(thread)@,
                *final(self),
            ),
    {
        self.add_opaque(thread, receiver.to_opaque(real_receiver), real_add)
    }

    /// Selects on a desynchronized thread, or gives up, as the thread's mode demands.
    fn select_on_desync<E>(
        &mut self,
        thread: &mut ThreadState,
        desync: DesyncError,
        kept: Vec<IpcSelectionResult<A>>,
        last: Option<IpcSelectionResult<A>>,
    ) -> (r: IpcSelectStep<R, A, E>)
        requires
            old(self).wf(),
        ensures
            final(self).wf(),
            desync_ipc_select(
                desync@,
                kept@,
                last,
                old(thread)@,
                *old(self),
                r,
                final(thread)@,
                *final(self),
            ),
    {
        match thread.desync_mode {
            DesyncMode::Panic => IpcSelectStep::Panic(desync),
            DesyncMode::KeepGoing => {
                mark_program_as_desynced(thread);
                let to_move = self.move_receivers_to_set();
                use_up_ids(thread, &to_move);
                let entries = join_entries(kept, self.get_buffered_entries(), last);
                IpcSelectStep::Desync { to_move, entries }
            },
        }
    }

    /// Selects messages, and channels that are closed, blocking until there is one.
    pub fn select<
        E,
        L: FnOnce() -> Result<Vec<IpcSelectionResult<A>>, E>,
        F: CallsAt<R, Attempt<A>>,
        S: Fn(),
    >(&mut self, thread: &mut ThreadState, real_select: L, try_recv: F, pause: &S) -> (r:
        IpcSelectStep<R, A, E>)
        requires
            old(self).wf(),
            old(self).mode != RRMode::NoRR && !old(thread)@.desynced ==> old(thread)@.initialized,
            old(self).mode != RRMode::Replay && !old(thread)@.desynced ==> call_requires(
                real_select,
                (),
            ),
            ready_for_all::<R, Attempt<A>, F>(try_recv),
            call_requires(*pause, ()),
        ensures
            final(self).wf(),
            ipc_select_step(
                *old(self),
                |selected: Result<Vec<IpcSelectionResult<A>>, E>|
                    call_ensures(real_select, (), selected),
                gives_each(try_recv),
                old(thread)@,
                r,
                final(thread)@,
                *final(self),
            ),
            calls_select(try_recv, *old(self), old(thread)@, r, final(thread)@, *final(self)),
    {
        let ghost selects = |selected: Result<Vec<IpcSelectionResult<A>>, E>|
            call_ensures(real_select, (), selected);
        let ghost tries = gives_each::<R, Attempt<A>, F>(try_recv);
        let mut tap = SetTap::new(try_recv);
        let outcome = self.rr_select(thread, real_select, &mut tap, pause);
        let ghost all = tap;
        let close = SetTap::<F, R, Attempt<A>>::close;
        let calls = close(tap);
        let ghost seen = outcome;
        let ghost mid = thread@;
        let ghost set = *self;
        assert(ipc_select_relation(*old(self), selects, tries, old(thread)@, seen, mid, set@));
        let r = match outcome {
            IpcSelecting::Selected(v) => IpcSelectStep::Done(v),
            IpcSelecting::Fatal(f) => IpcSelectStep::Fatal(f),
            IpcSelecting::Desync(DesyncError::NoEntryInLog, _, _) => IpcSelectStep::Sleep,
            IpcSelecting::Desync(e, kept, last) => self.select_on_desync(thread, e, kept, last),
        };
        assert(settled_ipc_select(seen, mid, set, r, thread@, *self));
        proof {
            assert(all_calls_at(try_recv, calls@));
            assert(since(Seq::<(int, R, Attempt<A>)>::empty(), calls@) =~= calls@);
            assert(select_accounted(
                *old(self),
                old(thread)@,
                calls@,
                seen,
                mid,
                set,
                r,
                thread@,
                *self,
            ));
        }
        r
    }

    /// Completes a `select` whose thread was woken up by a desynchronization.
    pub fn select_after_wakeup<E>(&mut self, thread: &mut ThreadState) -> (r: IpcSelectStep<
        R,
        A,
        E,
    >)
        requires
            old(self).wf(),
        ensures
            final(self).wf(),
            desync_ipc_select(
                DesyncErrorView::DesynchronizedWakeup,
                Seq::<IpcSelectionResult<A>>::empty(),
                None,
                old(thread)@,
                *old(self),
                r,
                final(thread)@,
                *final(self),
            ),
    {
        self.select_on_desync(thread, DesyncError::DesynchronizedWakeup, Vec::new(), None)
    }
}

} // verus!
