//! Sets of inter-process receivers with a keyed log.

use vstd::prelude::*;
use crate::desync::DesyncMode;
use crate::error::RecvErrorRR;
use crate::ipc_message::{Attempt, IpcSelectionResult, OpaqueIpcMessage};
use crate::ipc_set::{dummies, join_entries, lemma_next_id, reverse, with_last, MovedReceiver};
use crate::keyed::flow::{
    entry_view, mark_program_as_desynced, tag_of, tagged_entry, Buffer, KeyedPoll, Tag,
};
use crate::keyed::ipc::{IpcReceiver, OpaqueIpcReceiver};
use crate::keyed::record_replay::{
    fake_channel, get_det_id_desync, get_log_entry, get_log_entry_with, log, lookup,
    select_events_view, DesyncError, DesyncErrorView, DetChannelId, FlavorMarker, IndicesView,
    IpcSelectEvent, IpcSelectEventView, LogEntry, LogEntryView, LoggedView, Recorded,
    RecordedIndices, RecordedView,
};
use crate::keyed::select::next_logged;
use crate::keyed::thread::{
    get_and_inc_channel_id, get_event_id, inc_event_id, ContextView, DetThreadId, MaybeId,
    ThreadContext,
};
use crate::mode::RRMode;
use crate::rr::{expected_recv, is_other, recv_expected, stash};
use crate::set_flow::{
    all_at, gives_each, gives_one, kept_all, lemma_found_kept, lemma_found_new, lemma_found_none,
    lemma_kept_at_first, lemma_kept_nothing, lemma_kept_one_more, lemma_set_chain, lemma_set_close,
    lemma_set_idle, lemma_set_wait, lemma_still_at, lemma_tried_once, lemma_tried_since,
    on_receivers, ready_for_all, received, set_accounted, wait_kept, Arrivals,
};
use crate::source::since;
use crate::thread_map::{all_empty, contents, drained, queue_of, ThreadMap};
use crate::wire::{all_calls_at, decode_path, path_in, CallsAt, SetTap};

verus! {

/// The thread that sent the message, if that can be read.
pub fn deserialize_id<A>(opaque_msg: &OpaqueIpcMessage<A>) -> (id: Option<MaybeId>)
    ensures
        match id {
            Some(id) => path_in(opaque_msg.data@) == Some(id@),
            None => path_in(opaque_msg.data@) is None,
        },
{
    match decode_path(&opaque_msg.data) {
        Some(Some(path)) => Some(MaybeId::some(DetThreadId::from(path.as_slice()))),
        Some(None) => Some(MaybeId::none()),
        None => None,
    }
}

/// What came of a wait for a message from one sender.
pub enum Waited<A> {
    Found(OpaqueIpcMessage<A>),
    Closed,
    /// The receiver failed for another reason.
    Failed,
    /// A message came whose sender cannot be read.
    Unreadable,
    /// More messages came from others than can be counted.
    Exhausted,
}

/// A receive seen as one of a message with its sender.
pub open spec fn single_polls<A>(tries: spec_fn(Attempt<A>) -> bool) -> spec_fn(
    KeyedPoll<OpaqueIpcMessage<A>>,
) -> bool {
    |poll: KeyedPoll<OpaqueIpcMessage<A>>|
        match poll {
            Ok((id, msg)) => path_in(msg.data@) == Some(id@) && tries(Attempt::Message(msg)),
            Err(RecvErrorRR::Disconnected) => tries(Attempt::Closed),
            Err(RecvErrorRR::Timeout) => false,
        }
}

/// Messages from others than `sender` came and are kept.
pub open spec fn interrupted<A>(
    queues: Map<Option<Seq<u32>>, Seq<OpaqueIpcMessage<A>>>,
    sender: Option<Seq<u32>>,
    tries: spec_fn(Attempt<A>) -> bool,
    after: Map<Option<Seq<u32>>, Seq<OpaqueIpcMessage<A>>>,
) -> bool {
    &&& queue_of(queues, sender).len() == 0
    &&& exists|polls: Seq<KeyedPoll<OpaqueIpcMessage<A>>>|
        {
            &&& after == #[trigger] stash(queues, polls)
            &&& forall|i: int|
                0 <= i < polls.len() ==> {
                    &&& is_other(#[trigger] polls[i], sender)
                    &&& single_polls(tries)(polls[i])
                }
        }
}

/// What may come of a wait for a message from `sender`.
pub open spec fn wait_relation<A>(
    queues: Map<Option<Seq<u32>>, Seq<OpaqueIpcMessage<A>>>,
    sender: Option<Seq<u32>>,
    tries: spec_fn(Attempt<A>) -> bool,
    r: Waited<A>,
    after: Map<Option<Seq<u32>>, Seq<OpaqueIpcMessage<A>>>,
) -> bool {
    match r {
        Waited::Found(msg) => recv_expected(queues, sender, single_polls(tries), Ok(msg), after),
        Waited::Closed => recv_expected(
            queues,
            sender,
            single_polls(tries),
            Err(crate::error::DesyncErrorView::Disconnected),
            after,
        ),
        Waited::Failed => interrupted(queues, sender, tries, after) && tries(Attempt::Failed),
        Waited::Unreadable => {
            &&& interrupted(queues, sender, tries, after)
            &&& exists|msg: OpaqueIpcMessage<A>|
                tries(Attempt::Message(msg)) && (#[trigger] path_in(msg.data@)) is None
        },
        Waited::Exhausted => recv_expected(
            queues,
            sender,
            single_polls(tries),
            Err(crate::error::DesyncErrorView::Timeout(None)),
            after,
        ),
    }
}

/// The sender of a message, if it can be read.
pub open spec fn path_of<A>() -> spec_fn(OpaqueIpcMessage<A>) -> Option<Option<Seq<u32>>> {
    |msg: OpaqueIpcMessage<A>| path_in(msg.data@)
}

/// The message that was found, if any.
pub open spec fn found_message<A>(r: Waited<A>) -> Option<OpaqueIpcMessage<A>> {
    match r {
        Waited::Found(msg) => Some(msg),
        _ => None,
    }
}

/// Waits for a message from `expected_sender`. Messages from others are kept in the buffer, which
/// is looked at first. The receiver is the one at position `at`.
pub fn do_replay_recv_for_entry<R, A, F: CallsAt<R, Attempt<A>>>(
    buffer: &mut Buffer<OpaqueIpcMessage<A>>,
    expected_sender: &MaybeId,
    receiver: &R,
    at: Ghost<int>,
    tap: &mut SetTap<F, R, Attempt<A>>,
) -> (r: Waited<A>)
    requires
        old(buffer).wf(),
        old(tap).calls().ready_at(*receiver),
    ensures
        final(buffer).wf(),
        final(tap).calls() == old(tap).calls(),
        old(tap).seen().is_prefix_of(final(tap).seen()),
        all_at(since(old(tap).seen(), final(tap).seen()), at@, *receiver),
        wait_kept(
            path_of(),
            contents(*old(buffer)),
            since(old(tap).seen(), final(tap).seen()),
            at@,
            expected_sender@,
            found_message(r),
            contents(*final(buffer)),
        ),
        wait_relation(
            contents(*old(buffer)),
            expected_sender@,
            gives_one(old(tap).calls(), *receiver),
            r,
            contents(*final(buffer)),
        ),
{
    let ghost tries = gives_one::<R, Attempt<A>, F>(tap.calls(), *receiver);
    let ghost seen = tap.seen();
    let ghost mut delta: Seq<(int, R, Attempt<A>)> = Seq::empty();
    proof {
        assert(seen + delta =~= seen);
        assert(since(seen, seen) =~= delta);
    }
    let ghost queues = contents(*buffer);
    let ghost sender = expected_sender@;
    let ghost mut polls: Seq<KeyedPoll<OpaqueIpcMessage<A>>> = Seq::empty();
    match buffer.pop_message(expected_sender) {
        Some(entry) => {
            assert(expected_recv(
                queues,
                sender,
                polls,
                Ok::<OpaqueIpcMessage<A>, crate::error::DesyncErrorView>(entry),
                contents(*buffer),
            ));
            proof {
                lemma_found_kept::<Option<Seq<u32>>, R, A>(path_of(), queues, at@, sender);
            }
            return Waited::Found(entry);
        },
        None => {},
    }
    proof {
        lemma_kept_at_first::<Option<Seq<u32>>, R, A>(path_of(), queues, at@);
    }
    let mut count: u64 = 0;
    while count < u64::MAX
        invariant
            buffer.wf(),
            queues == contents(*old(buffer)),
            queue_of(queues, sender).len() == 0,
            sender == expected_sender@,
            tries == gives_one::<R, Attempt<A>, F>(tap.calls(), *receiver),
            tap.calls() == old(tap).calls(),
            tap.calls().ready_at(*receiver),
            seen == old(tap).seen(),
            tap.seen() == seen + delta,
            all_at(delta, at@, *receiver),
            kept_all(path_of(), queues, delta, at@, contents(*buffer)),
            queue_of(contents(*buffer), sender).len() == 0,
            polls.len() == count,
            contents(*buffer) == stash(queues, polls),
            forall|i: int|
                0 <= i < polls.len() ==> {
                    &&& is_other(#[trigger] polls[i], sender)
                    &&& single_polls(tries)(polls[i])
                },
        decreases u64::MAX - count,
    {
        let ghost before = polls;
        let ghost kept = contents(*buffer);
        let ghost earlier = delta;
        let got = tap.call(receiver, at);
        assert(tries(got));
        proof {
            lemma_tried_once(seen + earlier, at@, *receiver, got);
            delta = since(seen, tap.seen());
            lemma_tried_since(seen, earlier, at@, *receiver, got, tap.seen());
            lemma_still_at(earlier, at@, *receiver, got, delta);
            if !(got is Message) {
                lemma_kept_nothing(
                    path_of(),
                    queues,
                    earlier,
                    at@,
                    *receiver,
                    kept,
                    got,
                    delta,
                );
                lemma_found_none(path_of(), queues, delta, at@, sender, kept);
            }
        }
        match got {
            Attempt::Message(msg) => {
                match deserialize_id(&msg) {
                    Some(det_id) => {
                        proof {
                            polls = polls.push(Ok((det_id, msg)));
                            assert(polls.drop_last() =~= before);
                            assert(single_polls(tries)(Ok((det_id, msg))));
                        }
                        if det_id.same_id(expected_sender) {
                            proof {
                                lemma_found_new(
                                    path_of(),
                                    queues,
                                    earlier,
                                    at@,
                                    *receiver,
                                    kept,
                                    msg,
                                    sender,
                                    delta,
                                );
                            }
                            assert(expected_recv(
                                queues,
                                sender,
                                polls,
                                Ok::<OpaqueIpcMessage<A>, crate::error::DesyncErrorView>(msg),
                                contents(*buffer),
                            ));
                            return Waited::Found(msg);
                        }
                        proof {
                            lemma_kept_one_more(
                                path_of(),
                                queues,
                                earlier,
                                at@,
                                *receiver,
                                kept,
                                msg,
                                det_id@,
                                delta,
                            );
                        }
                        buffer.push_message(det_id, msg);
                    },
                    None => {
                        proof {
                            lemma_kept_nothing(
                                path_of(),
                                queues,
                                earlier,
                                at@,
                                *receiver,
                                kept,
                                got,
                                delta,
                            );
                            lemma_found_none(path_of(), queues, delta, at@, sender, kept);
                        }
                        assert(interrupted(queues, sender, tries, contents(*buffer)));
                        assert(path_in(msg.data@) is None);
                        return Waited::Unreadable;
                    },
                }
            },
            Attempt::Closed => {
                proof {
                    polls = polls.push(Err(RecvErrorRR::Disconnected));
                    assert(polls.drop_last() =~= before);
                    assert(single_polls(tries)(Err(RecvErrorRR::Disconnected)));
                }
                assert(expected_recv(
                    queues,
                    sender,
                    polls,
                    Err::<OpaqueIpcMessage<A>, crate::error::DesyncErrorView>(
                        crate::error::DesyncErrorView::Disconnected,
                    ),
                    contents(*buffer),
                ));
                return Waited::Closed;
            },
            Attempt::Failed => {
                assert(interrupted(queues, sender, tries, contents(*buffer)));
                return Waited::Failed;
            },
        }
        count += 1;
    }
    assert(is_other(polls[polls.len() - 1], sender));
    assert(expected_recv(
        queues,
        sender,
        polls,
        Err::<OpaqueIpcMessage<A>, crate::error::DesyncErrorView>(
            crate::error::DesyncErrorView::Timeout(None),
        ),
        contents(*buffer),
    ));
    proof {
        assert(since(seen, tap.seen()) =~= delta);
        lemma_found_none(path_of(), queues, delta, at@, sender, contents(*buffer));
    }
    Waited::Exhausted
}

/// Why a select cannot go on, whatever the mode.
#[derive(Debug, Clone, Copy, PartialEq, Eq, Structural)]
pub enum Broken {
    /// The log points to a receiver that there is not.
    MissingReceiver(u64),
    /// A receiver failed for an unknown reason.
    UnknownError,
    /// A message came whose sender cannot be read.
    UnreadableSender,
    /// More messages came from others than can be counted.
    Exhausted,
}

/// What came of the replay of one logged result.
pub enum EventOutcome<A> {
    Replayed(IpcSelectionResult<A>),
    /// The replay does not follow its log. What came instead is not lost.
    Desync(DesyncError, IpcSelectionResult<A>),
    Broken(Broken),
}

/// A set of receivers that can be selected from. `R` is the end of a real channel.
pub struct IpcReceiverSet<R, A> {
    pub mode: RRMode,
    /// The index of the next receiver that is added while replaying.
    pub index: usize,
    /// While replaying: the receivers, at their indices.
    pub receivers: Vec<OpaqueIpcReceiver<R>>,
    /// While replaying: the messages of each receiver that came before those that the replay had
    /// to wait for.
    pub buffer: Vec<Buffer<OpaqueIpcMessage<A>>>,
    /// The receivers were moved to the real set.
    pub desynced: bool,
}

/// The receivers of a set, and what is kept for each of them.
pub struct SetView<R, A> {
    pub receivers: Seq<OpaqueIpcReceiver<R>>,
    pub queues: Seq<Map<Option<Seq<u32>>, Seq<OpaqueIpcMessage<A>>>>,
}

impl<R, A> View for IpcReceiverSet<R, A> {
    type V = SetView<R, A>;

    open spec fn view(&self) -> SetView<R, A> {
        SetView {
            receivers: self.receivers@,
            queues: self.buffer@.map_values(
                |buffer: Buffer<OpaqueIpcMessage<A>>| contents(buffer),
            ),
        }
    }
}

/// The receivers once the one at `i` is known to be closed.
pub open spec fn close_at<R>(receivers: Seq<OpaqueIpcReceiver<R>>, i: int) -> Seq<
    OpaqueIpcReceiver<R>,
> {
    receivers.update(i, OpaqueIpcReceiver { closed: true, ..receivers[i] })
}

/// What becomes of a wait for the message at `index`.
pub open spec fn waited_event<A>(index: u64, w: Waited<A>) -> EventOutcome<A> {
    match w {
        Waited::Found(msg) => EventOutcome::Replayed(
            IpcSelectionResult::MessageReceived(index, msg),
        ),
        Waited::Closed => EventOutcome::Desync(
            DesyncError::ChannelClosedUnexpected(index),
            IpcSelectionResult::ChannelClosed(index),
        ),
        Waited::Failed => EventOutcome::Broken(Broken::UnknownError),
        Waited::Unreadable => EventOutcome::Broken(Broken::UnreadableSender),
        Waited::Exhausted => EventOutcome::Broken(Broken::Exhausted),
    }
}

/// What becomes of a receive where the channel at `index` should be closed.
pub open spec fn closed_event<A>(index: u64, got: Attempt<A>) -> EventOutcome<A> {
    match got {
        Attempt::Message(msg) => EventOutcome::Desync(
            DesyncError::ChannelClosedExpected,
            IpcSelectionResult::MessageReceived(index, msg),
        ),
        Attempt::Closed => EventOutcome::Replayed(IpcSelectionResult::ChannelClosed(index)),
        Attempt::Failed => EventOutcome::Broken(Broken::UnknownError),
    }
}

/// The wait `w` for a message from `sender` at position `i`.
pub open spec fn message_step<R, A>(
    tries: spec_fn(R, Attempt<A>) -> bool,
    before: SetView<R, A>,
    i: int,
    sender: Option<Seq<u32>>,
    w: Waited<A>,
    after: SetView<R, A>,
) -> bool {
    &&& after.queues.len() == before.queues.len()
    &&& forall|j: int|
        0 <= j < before.queues.len() && j != i ==> #[trigger] after.queues[j] == before.queues[j]
    &&& wait_relation(
        before.queues[i],
        sender,
        |a: Attempt<A>| tries(before.receivers[i].opaque_receiver, a),
        w,
        after.queues[i],
    )
    &&& after.receivers == if w is Closed {
        close_at(before.receivers, i)
    } else {
        before.receivers
    }
}

/// The receive at position `i`, where the channel should be closed, gave `got`.
pub open spec fn close_step<R, A>(
    tries: spec_fn(R, Attempt<A>) -> bool,
    before: SetView<R, A>,
    i: int,
    got: Attempt<A>,
    after: SetView<R, A>,
) -> bool {
    &&& after.queues == before.queues
    &&& tries(before.receivers[i].opaque_receiver, got)
    &&& after.receivers == if got is Closed {
        close_at(before.receivers, i)
    } else {
        before.receivers
    }
}

/// The replay of a logged message from `sender` at `index`.
pub open spec fn message_event<R, A>(
    tries: spec_fn(R, Attempt<A>) -> bool,
    before: SetView<R, A>,
    index: u64,
    sender: Option<Seq<u32>>,
    outcome: EventOutcome<A>,
    after: SetView<R, A>,
) -> bool {
    exists|w: Waited<A>|
        {
            &&& #[trigger] message_step(tries, before, index as int, sender, w, after)
            &&& outcome == waited_event(index, w)
        }
}

/// The replay of a logged end of the channel at `index`.
pub open spec fn close_event<R, A>(
    tries: spec_fn(R, Attempt<A>) -> bool,
    before: SetView<R, A>,
    index: u64,
    outcome: EventOutcome<A>,
    after: SetView<R, A>,
) -> bool {
    exists|got: Attempt<A>|
        {
            &&& #[trigger] close_step(tries, before, index as int, got, after)
            &&& outcome == closed_event(index, got)
        }
}

/// The replay of one logged result: `tries` tells what a receive on a receiver may give.
pub open spec fn event_step<R, A>(
    tries: spec_fn(R, Attempt<A>) -> bool,
    before: SetView<R, A>,
    event: IpcSelectEventView,
    outcome: EventOutcome<A>,
    after: SetView<R, A>,
) -> bool {
    let index = match event {
        IpcSelectEventView::MessageReceived(index, _) => index,
        IpcSelectEventView::ChannelClosed(index) => index,
    };
    if index >= before.receivers.len() {
        &&& after == before
        &&& outcome == EventOutcome::<A>::Broken(Broken::MissingReceiver(index))
    } else {
        match event {
            IpcSelectEventView::MessageReceived(_, sender) => message_event(
                tries,
                before,
                index,
                sender,
                outcome,
                after,
            ),
            IpcSelectEventView::ChannelClosed(_) => close_event(
                tries,
                before,
                index,
                outcome,
                after,
            ),
        }
    }
}

/// The outcome of a select.
pub enum IpcSelecting<A, E> {
    Selected(Result<Vec<IpcSelectionResult<A>>, E>),
    /// The replay does not follow its log. What was replayed before is not lost, nor is what came
    /// instead of the logged result.
    Desync(DesyncError, Vec<IpcSelectionResult<A>>, Option<IpcSelectionResult<A>>),
    Broken(Broken),
}

/// Each of the events was replayed, one after the other, with these results.
pub open spec fn events_replayed<R, A>(
    tries: spec_fn(R, Attempt<A>) -> bool,
    before: SetView<R, A>,
    events: Seq<IpcSelectEventView>,
    results: Seq<IpcSelectionResult<A>>,
    after: SetView<R, A>,
) -> bool
    decreases events.len(),
{
    &&& results.len() == events.len()
    &&& if events.len() == 0 {
        after == before
    } else {
        exists|mid: SetView<R, A>|
            {
                &&& events_replayed(tries, before, events.drop_last(), results.drop_last(), mid)
                &&& #[trigger] event_step(
                    tries,
                    mid,
                    events.last(),
                    EventOutcome::Replayed(results.last()),
                    after,
                )
            }
    }
}

proof fn lemma_one_more<R, A>(
    tries: spec_fn(R, Attempt<A>) -> bool,
    before: SetView<R, A>,
    events: Seq<IpcSelectEventView>,
    results: Seq<IpcSelectionResult<A>>,
    mid: SetView<R, A>,
    event: IpcSelectEventView,
    result: IpcSelectionResult<A>,
    after: SetView<R, A>,
)
    requires
        events_replayed(tries, before, events, results, mid),
        event_step(tries, mid, event, EventOutcome::Replayed(result), after),
    ensures
        events_replayed(tries, before, events.push(event), results.push(result), after),
{
    assert(events.push(event).drop_last() =~= events);
    assert(results.push(result).drop_last() =~= results);
    assert(event_step(
        tries,
        mid,
        events.push(event).last(),
        EventOutcome::Replayed(results.push(result).last()),
        after,
    ));
}

/// The event at position `k` could not be replayed.
pub open spec fn failed_at<R, A, E>(
    tries: spec_fn(R, Attempt<A>) -> bool,
    before: SetView<R, A>,
    events: Seq<IpcSelectEventView>,
    k: int,
    results: Seq<IpcSelectionResult<A>>,
    mid: SetView<R, A>,
    outcome: EventOutcome<A>,
    r: IpcSelecting<A, E>,
    after: SetView<R, A>,
) -> bool {
    &&& 0 <= k < events.len()
    &&& events_replayed(tries, before, events.take(k), results, mid)
    &&& event_step(tries, mid, events[k], outcome, after)
    &&& match outcome {
        EventOutcome::Replayed(_) => false,
        EventOutcome::Desync(e, last) => match r {
            IpcSelecting::Desync(found, kept, came) => {
                &&& found == e
                &&& kept@ == results
                &&& came == Some(last)
            },
            _ => false,
        },
        EventOutcome::Broken(b) => r == IpcSelecting::<A, E>::Broken(b),
    }
}

/// The replay of a logged select.
pub open spec fn events_step<R, A, E>(
    tries: spec_fn(R, Attempt<A>) -> bool,
    before: SetView<R, A>,
    events: Seq<IpcSelectEventView>,
    r: IpcSelecting<A, E>,
    after: SetView<R, A>,
) -> bool {
    match r {
        IpcSelecting::Selected(Ok(results)) => events_replayed(
            tries,
            before,
            events,
            results@,
            after,
        ),
        IpcSelecting::Selected(Err(_)) => false,
        _ => exists|
            k: int,
            results: Seq<IpcSelectionResult<A>>,
            mid: SetView<R, A>,
            outcome: EventOutcome<A>,
        | #[trigger]
            failed_at(tries, before, events, k, results, mid, outcome, r, after),
    }
}

/// The event that records a result of a select, if the sender of its message can be read.
pub open spec fn event_of<A>(result: IpcSelectionResult<A>) -> Option<IpcSelectEventView> {
    match result {
        IpcSelectionResult::MessageReceived(index, msg) => match path_in(msg.data@) {
            Some(sender) => Some(IpcSelectEventView::MessageReceived(index, sender)),
            None => None,
        },
        IpcSelectionResult::ChannelClosed(index) => Some(IpcSelectEventView::ChannelClosed(index)),
    }
}

/// The sender of every message can be read.
pub open spec fn readable<A>(selected: Seq<IpcSelectionResult<A>>) -> bool {
    forall|i: int| 0 <= i < selected.len() ==> event_of(#[trigger] selected[i]) is Some
}

/// The events that record the results of a select.
pub open spec fn events_of<A>(selected: Seq<IpcSelectionResult<A>>) -> Seq<IpcSelectEventView> {
    selected.map_values(|result: IpcSelectionResult<A>| event_of(result)->0)
}

/// The events that record the results of a select.
fn recorded_events<A>(selected: &Vec<IpcSelectionResult<A>>) -> (events: Option<
    Vec<IpcSelectEvent>,
>)
    ensures
        match events {
            Some(events) => readable(selected@) && select_events_view(events@) == events_of(
                selected@,
            ),
            None => !readable(selected@),
        },
{
    let mut events: Vec<IpcSelectEvent> = Vec::new();
    let mut i: usize = 0;
    while i < selected.len()
        invariant
            i <= selected@.len(),
            events@.len() == i,
            forall|j: int|
                0 <= j < i ==> event_of(#[trigger] selected@[j]) == Some(events@[j]@),
        decreases selected@.len() - i,
    {
        match &selected[i] {
            IpcSelectionResult::MessageReceived(index, opaque_msg) => {
                match deserialize_id(opaque_msg) {
                    Some(det_id) => {
                        events.push(IpcSelectEvent::MessageReceived(*index, det_id));
                    },
                    None => {
                        assert(event_of(selected@[i as int]) is None);
                        return None;
                    },
                }
            },
            IpcSelectionResult::ChannelClosed(index) => {
                events.push(IpcSelectEvent::ChannelClosed(*index));
            },
        }
        i += 1;
    }
    assert(select_events_view(events@) =~= events_of(selected@));
    Some(events)
}

/// How selects are described in the log: they belong to no single channel.
pub open spec fn select_tag() -> Tag {
    Tag { flavor: FlavorMarker::IpcSelect, id: fake_channel(), message_type: "IpcSelect"@ }
}

/// `selected` is logged and handed on.
pub open spec fn recorded_selection<A, E>(
    selected: Result<Vec<IpcSelectionResult<A>>, E>,
    thread: ContextView,
    r: IpcSelecting<A, E>,
    entry: Option<LogEntryView>,
    thread_after: ContextView,
) -> bool {
    match selected {
        Err(_) => {
            &&& r == IpcSelecting::<A, E>::Selected(selected)
            &&& entry is None
            &&& thread_after == thread
        },
        Ok(results) => if readable(results@) {
            &&& r == IpcSelecting::<A, E>::Selected(selected)
            &&& entry == Some(
                tagged_entry(
                    thread,
                    RecordedView::IpcSelect { select_events: events_of(results@) },
                    select_tag(),
                ),
            )
            &&& thread_after == thread.next_event()
        } else {
            &&& r == IpcSelecting::<A, E>::Broken(Broken::UnreadableSender)
            &&& entry is None
            &&& thread_after == thread
        },
    }
}

/// `r` reports the desynchronization `why`, and nothing was replayed.
pub open spec fn ipc_desync<A, E>(r: IpcSelecting<A, E>, why: DesyncErrorView) -> bool {
    match r {
        IpcSelecting::Desync(e, results, last) => {
            e@ == why && results@.len() == 0 && last is None
        },
        _ => false,
    }
}

/// A select that follows the log. The event is counted if all of it could be replayed.
pub open spec fn keyed_set_replay<R, A, E>(
    found: Result<LoggedView, DesyncErrorView>,
    tries: spec_fn(R, Attempt<A>) -> bool,
    before: SetView<R, A>,
    thread: ContextView,
    r: IpcSelecting<A, E>,
    thread_after: ContextView,
    after: SetView<R, A>,
) -> bool {
    match found {
        Err(e) => ipc_desync(r, e) && thread_after == thread && after == before,
        Ok(logged) => match logged.event {
            RecordedView::IpcSelect { select_events } => {
                &&& events_step(tries, before, select_events, r, after)
                &&& thread_after == if r is Selected {
                    thread.next_event()
                } else {
                    thread
                }
            },
            event => {
                &&& ipc_desync(
                    r,
                    DesyncErrorView::EventMismatch(
                        event,
                        RecordedView::IpcSelect {
                            select_events: Seq::<IpcSelectEventView>::empty(),
                        },
                    ),
                )
                &&& thread_after == thread
                &&& after == before
            },
        },
    }
}

/// A select in each of the modes: `selects` tells what a select of the real set may give.
pub open spec fn keyed_set_select<R, A, E>(
    set: IpcReceiverSet<R, A>,
    indices: IndicesView,
    selects: spec_fn(Result<Vec<IpcSelectionResult<A>>, E>) -> bool,
    tries: spec_fn(R, Attempt<A>) -> bool,
    thread: ContextView,
    r: IpcSelecting<A, E>,
    entry: Option<LogEntryView>,
    thread_after: ContextView,
    after: SetView<R, A>,
) -> bool {
    if thread.desynced || (set.mode == RRMode::Replay && set.desynced) {
        &&& ipc_desync(r, DesyncErrorView::Desynchronized)
        &&& entry is None
        &&& thread_after == thread
        &&& after == set@
    } else {
        match set.mode {
            RRMode::Record => {
                &&& after == set@
                &&& exists|selected: Result<Vec<IpcSelectionResult<A>>, E>|
                    {
                        &&& selects(selected)
                        &&& #[trigger] recorded_selection(selected, thread, r, entry, thread_after)
                    }
            },
            RRMode::Replay => {
                &&& entry is None
                &&& keyed_set_replay(
                    next_logged(indices, thread),
                    tries,
                    set@,
                    thread,
                    r,
                    thread_after,
                    after,
                )
            },
            RRMode::NoRR => {
                &&& after == set@
                &&& entry is None
                &&& thread_after == thread
                &&& exists|selected: Result<Vec<IpcSelectionResult<A>>, E>| #[trigger]
                    selects(selected) && r == IpcSelecting::<A, E>::Selected(selected)
            },
        }
    }
}

/// What is added to the real set for a receiver.
pub open spec fn moved<R>(receiver: OpaqueIpcReceiver<R>) -> MovedReceiver<R> {
    if receiver.closed {
        MovedReceiver::Dummy
    } else {
        MovedReceiver::Open(receiver.opaque_receiver)
    }
}

/// What is added to the real set, in the order of the indices.
pub open spec fn moved_receivers<R, A>(set: IpcReceiverSet<R, A>) -> Seq<MovedReceiver<R>> {
    if set.desynced {
        Seq::<MovedReceiver<R>>::empty()
    } else {
        set.receivers@.map_values(|receiver: OpaqueIpcReceiver<R>| moved(receiver))
    }
}

/// `entries` are all messages that are kept, those of one sender in the order in which they came.
pub open spec fn all_buffered<A>(
    queues: Seq<Map<Option<Seq<u32>>, Seq<OpaqueIpcMessage<A>>>>,
    entries: Seq<IpcSelectionResult<A>>,
) -> bool {
    exists|parts: Seq<Seq<OpaqueIpcMessage<A>>>|
        {
            &&& parts.len() == queues.len()
            &&& forall|i: int|
                0 <= i < queues.len() ==> drained(#[trigger] queues[i], parts[i])
            &&& entries == #[trigger] crate::ipc_set::joined_results(parts)
        }
}

/// The outcome of an attempt to add a receiver.
pub enum Adding<R, E> {
    Added(Result<u64, E>),
    /// The receiver was not added.
    Refused(DesyncError, OpaqueIpcReceiver<R>),
}

/// Why a receiver cannot be the one that was logged, if so. The flavor and the channel are compared
/// first.
pub open spec fn add_mismatch(
    found: Result<LoggedView, DesyncErrorView>,
    index: usize,
    count: nat,
) -> Option<DesyncErrorView> {
    match found {
        Err(e) => Some(e),
        Ok(logged) => match logged.event {
            RecordedView::IpcSelectAdd(r_index) => if r_index != index {
                Some(DesyncErrorView::SelectIndexMismatch(r_index, index as u64))
            } else if index < count {
                Some(DesyncErrorView::SelectExistingEntry(index as u64))
            } else {
                None
            },
            event => Some(
                DesyncErrorView::EventMismatch(event, RecordedView::IpcSelectAdd(u64::MAX)),
            ),
        },
    }
}

/// What the log of a thread holds for its next event on a channel.
pub open spec fn next_tagged(indices: IndicesView, thread: ContextView, tag: Tag) -> Result<
    LoggedView,
    DesyncErrorView,
> {
    match thread.det_id {
        None => Err(DesyncErrorView::UnitializedDetThreadId),
        Some(id) => lookup(indices, id, thread.event_id, Some(tag.flavor), Some(tag.id)),
    }
}

/// The receiver comes back, and all is as it was.
pub open spec fn add_refused<R, A, E>(
    before: IpcReceiverSet<R, A>,
    why: DesyncErrorView,
    receiver: OpaqueIpcReceiver<R>,
    thread: ContextView,
    r: Adding<R, E>,
    thread_after: ContextView,
    after: IpcReceiverSet<R, A>,
) -> bool {
    &&& after == before
    &&& thread_after == thread
    &&& match r {
        Adding::Refused(e, back) => e@ == why && back == receiver,
        _ => false,
    }
}

/// A receiver that the real set was given is logged.
pub open spec fn recorded_add<R, E>(
    added: Result<u64, E>,
    tag: Tag,
    thread: ContextView,
    r: Adding<R, E>,
    entry: Option<LogEntryView>,
    thread_after: ContextView,
) -> bool {
    &&& r == Adding::<R, E>::Added(added)
    &&& match added {
        Err(_) => entry is None && thread_after == thread,
        Ok(index) => {
            &&& entry == Some(tagged_entry(thread, RecordedView::IpcSelectAdd(index), tag))
            &&& thread_after == thread.next_event()
        },
    }
}

/// The addition of a receiver in each of the modes: `adds` tells what the real set may give.
pub open spec fn keyed_add<R, A, E>(
    before: IpcReceiverSet<R, A>,
    receiver: OpaqueIpcReceiver<R>,
    indices: IndicesView,
    adds: spec_fn(R, Result<u64, E>) -> bool,
    thread: ContextView,
    r: Adding<R, E>,
    entry: Option<LogEntryView>,
    thread_after: ContextView,
    after: IpcReceiverSet<R, A>,
) -> bool {
    let tag = tag_of(receiver.metadata);
    if thread.desynced || before.desynced {
        &&& entry is None
        &&& add_refused(
            before,
            DesyncErrorView::Desynchronized,
            receiver,
            thread,
            r,
            thread_after,
            after,
        )
    } else {
        match before.mode {
            RRMode::Record => {
                &&& after == before
                &&& exists|added: Result<u64, E>|
                    {
                        &&& adds(receiver.opaque_receiver, added)
                        &&& #[trigger] recorded_add(added, tag, thread, r, entry, thread_after)
                    }
            },
            RRMode::Replay => {
                &&& entry is None
                &&& match add_mismatch(
                    next_tagged(indices, thread, tag),
                    before.index,
                    before@.receivers.len(),
                ) {
                    Some(e) => add_refused(before, e, receiver, thread, r, thread_after, after),
                    None => {
                        &&& r == Adding::<R, E>::Added(Ok(before.index as u64))
                        &&& thread_after == thread.next_event()
                        &&& after.mode == before.mode
                        &&& !after.desynced
                        &&& after.index == before.index + 1
                        &&& after@.receivers == before@.receivers.push(receiver)
                        &&& after@.queues == before@.queues.push(
                            Map::<Option<Seq<u32>>, Seq<OpaqueIpcMessage<A>>>::empty(),
                        )
                    },
                }
            },
            RRMode::NoRR => {
                &&& after == before
                &&& entry is None
                &&& thread_after == thread
                &&& exists|added: Result<u64, E>| #[trigger]
                    adds(receiver.opaque_receiver, added) && r == Adding::<R, E>::Added(added)
            },
        }
    }
}

/// How far the addition of a receiver came.
pub enum AddStep<R, E> {
    Done(Result<u64, E>),
    /// The replay is given up. All receivers of `to_move` are to be added to the real set, in this
    /// order, and `receiver` after them.
    Desync { to_move: Vec<MovedReceiver<R>>, receiver: R },
    /// The replay cannot go on.
    Panic(DesyncError),
}

/// How far a select came.
pub enum IpcSelectStep<R, A, E> {
    Done(Result<Vec<IpcSelectionResult<A>>, E>),
    /// The thread ran off the end of its log. It has to wait for ever.
    Park,
    /// The replay is given up. All receivers of `to_move` are to be added to the real set, in this
    /// order. Then the result is `entries`, or that of a select of the real set if there are none.
    Desync { to_move: Vec<MovedReceiver<R>>, entries: Option<Vec<IpcSelectionResult<A>>> },
    /// The replay cannot go on.
    Panic(DesyncError),
    /// Nothing can be selected any more.
    Broken(Broken),
}

/// What becomes of the outcome of an addition.
pub open spec fn settled_add<R, A, E>(
    outcome: Adding<R, E>,
    thread: ContextView,
    set: IpcReceiverSet<R, A>,
    r: AddStep<R, E>,
    thread_after: ContextView,
    after: IpcReceiverSet<R, A>,
) -> bool {
    match outcome {
        Adding::Added(v) => r == AddStep::<R, E>::Done(v) && thread_after == thread && after == set,
        Adding::Refused(e, receiver) => match thread.desync_mode {
            DesyncMode::Panic => {
                r == AddStep::<R, E>::Panic(e) && thread_after == thread && after == set
            },
            DesyncMode::KeepGoing => {
                &&& thread_after == thread.marked().after_channels(
                    dummies(moved_receivers(set)),
                ).next_event()
                &&& match r {
                    AddStep::Desync { to_move, receiver: back } => {
                        &&& to_move@ == moved_receivers(set)
                        &&& back == receiver.opaque_receiver
                    },
                    _ => false,
                }
                &&& after.desynced
                &&& after.mode == set.mode
                &&& after.index == set.index
                &&& after@.receivers.len() == 0
                &&& after@.queues == set@.queues
            },
        },
    }
}

/// Every channel that is created in place of a closed one uses up an id of the thread.
fn use_up_ids<R>(thread: &mut ThreadContext, to_move: &Vec<MovedReceiver<R>>)
    ensures
        final(thread)@ == old(thread)@.after_channels(dummies(to_move@)),
{
    let mut i: usize = 0;
    while i < to_move.len()
        invariant
            i <= to_move@.len(),
            thread@ == old(thread)@.after_channels(dummies(to_move@.take(i as int))),
        decreases to_move@.len() - i,
    {
        proof {
            assert(to_move@.take(i + 1).drop_last() =~= to_move@.take(i as int));
            lemma_next_id(old(thread)@.channel_id, dummies(to_move@.take(i as int)));
        }
        if let MovedReceiver::Dummy = to_move[i] {
            let _ = get_and_inc_channel_id(thread);
        }
        i += 1;
    }
    assert(to_move@.take(i as int) =~= to_move@);
}

/// What a select hands out when the replay is given up: the results `kept` that were replayed before,
/// all messages that are kept, and what came instead of the logged result. Messages of one sender
/// stay in the order in which they came, and the end of a channel comes behind its messages.
pub open spec fn given_up<A>(
    queues: Seq<Map<Option<Seq<u32>>, Seq<OpaqueIpcMessage<A>>>>,
    kept: Seq<IpcSelectionResult<A>>,
    last: Option<IpcSelectionResult<A>>,
    entries: Option<Vec<IpcSelectionResult<A>>>,
) -> bool {
    exists|buffered: Seq<IpcSelectionResult<A>>| #[trigger]
        all_buffered(queues, buffered) && match entries {
            Some(entries) => entries@.len() > 0 && entries@ == with_last(kept + buffered, last),
            None => kept.len() == 0 && buffered.len() == 0 && last is None,
        }
}

/// What a select does on the desynchronization `desync`, where `kept` was replayed before and `last`
/// came instead of the next result.
pub open spec fn desync_set_select<R, A, E>(
    desync: DesyncErrorView,
    kept: Seq<IpcSelectionResult<A>>,
    last: Option<IpcSelectionResult<A>>,
    thread: ContextView,
    set: IpcReceiverSet<R, A>,
    r: IpcSelectStep<R, A, E>,
    thread_after: ContextView,
    after: IpcReceiverSet<R, A>,
) -> bool {
    match thread.desync_mode {
        DesyncMode::Panic => {
            &&& r matches IpcSelectStep::Panic(e)
            &&& e@ == desync
            &&& thread_after == thread
            &&& after == set
        },
        DesyncMode::KeepGoing => {
            &&& thread_after == thread.marked().after_channels(
                dummies(moved_receivers(set)),
            ).next_event()
            &&& match r {
                IpcSelectStep::Desync { to_move, entries } => {
                    &&& to_move@ == moved_receivers(set)
                    &&& given_up(set@.queues, kept, last, entries)
                },
                _ => false,
            }
            &&& after.desynced
            &&& after.mode == set.mode
            &&& after.index == set.index
            &&& after@.receivers.len() == 0
            &&& after@.queues.len() == set@.queues.len()
            &&& forall|i: int|
                0 <= i < after@.queues.len() ==> all_empty(#[trigger] after@.queues[i])
        },
    }
}

/// What becomes of the outcome of a select.
pub open spec fn settled_set_select<R, A, E>(
    outcome: IpcSelecting<A, E>,
    thread: ContextView,
    set: IpcReceiverSet<R, A>,
    r: IpcSelectStep<R, A, E>,
    thread_after: ContextView,
    after: IpcReceiverSet<R, A>,
) -> bool {
    match outcome {
        IpcSelecting::Selected(v) => {
            r == IpcSelectStep::<R, A, E>::Done(v) && thread_after == thread && after == set
        },
        IpcSelecting::Broken(b) => {
            r == IpcSelectStep::<R, A, E>::Broken(b) && thread_after == thread && after == set
        },
        IpcSelecting::Desync(DesyncError::NoEntryInLog(_, _), _, _) => {
            r is Park && thread_after == thread && after == set
        },
        IpcSelecting::Desync(e, kept, last) => desync_set_select(
            e@,
            kept@,
            last,
            thread,
            set,
            r,
            thread_after,
            after,
        ),
    }
}

/// A select, together with what the thread does on a desynchronization.
pub open spec fn keyed_set_select_step<R, A, E>(
    before: IpcReceiverSet<R, A>,
    indices: IndicesView,
    selects: spec_fn(Result<Vec<IpcSelectionResult<A>>, E>) -> bool,
    tries: spec_fn(R, Attempt<A>) -> bool,
    thread: ContextView,
    r: IpcSelectStep<R, A, E>,
    entry: Option<LogEntryView>,
    thread_after: ContextView,
    after: IpcReceiverSet<R, A>,
) -> bool {
    exists|outcome: IpcSelecting<A, E>, mid: ContextView, set: IpcReceiverSet<R, A>|
        {
            &&& keyed_set_select(
                before,
                indices,
                selects,
                tries,
                thread,
                outcome,
                entry,
                mid,
                set@,
            )
            &&& set.same_set(before)
            &&& #[trigger] settled_set_select(outcome, mid, set, r, thread_after, after)
        }
}

/// The addition of a receiver, together with what the thread does on a desynchronization.
pub open spec fn keyed_add_step<R, A, E>(
    before: IpcReceiverSet<R, A>,
    receiver: OpaqueIpcReceiver<R>,
    indices: IndicesView,
    adds: spec_fn(R, Result<u64, E>) -> bool,
    thread: ContextView,
    r: AddStep<R, E>,
    entry: Option<LogEntryView>,
    thread_after: ContextView,
    after: IpcReceiverSet<R, A>,
) -> bool {
    exists|outcome: Adding<R, E>, mid: ContextView, set: IpcReceiverSet<R, A>|
        {
            &&& keyed_add(before, receiver, indices, adds, thread, outcome, entry, mid, set)
            &&& #[trigger] settled_add(outcome, mid, set, r, thread_after, after)
        }
}

/// Logs the results of a select and hands them on.
pub fn log_selection<A, E>(
    thread: &mut ThreadContext,
    selected: Result<Vec<IpcSelectionResult<A>>, E>,
) -> (out: (IpcSelecting<A, E>, Option<LogEntry>))
    requires
        old(thread)@.event_id < u32::MAX,
    ensures
        recorded_selection(selected, old(thread)@, out.0, entry_view(out.1), final(thread)@),
{
    match selected {
        Err(e) => (IpcSelecting::Selected(Err(e)), None),
        Ok(results) => {
            match recorded_events(&results) {
                Some(events) => {
                    let entry = log(
                        thread,
                        Recorded::IpcSelect { select_events: events },
                        FlavorMarker::IpcSelect,
                        &"IpcSelect".to_string(),
                        &DetChannelId::fake(),
                    );
                    (IpcSelecting::Selected(Ok(results)), Some(entry))
                },
                None => (IpcSelecting::Broken(Broken::UnreadableSender), None),
            }
        },
    }
}

/// The position and the sender that a result is logged with, if it is a message.
pub open spec fn slot_of(event: IpcSelectEventView) -> Option<(int, Option<Seq<u32>>)> {
    match event {
        IpcSelectEventView::MessageReceived(index, sender) => Some((index as int, sender)),
        IpcSelectEventView::ChannelClosed(_) => None,
    }
}

/// The positions and the senders of the logged results.
pub open spec fn slots_of(events: Seq<IpcSelectEventView>) -> Seq<
    Option<(int, Option<Seq<u32>>)>,
> {
    events.map_values(|event: IpcSelectEventView| slot_of(event))
}

/// The ends of the real channels.
pub open spec fn real_ends<R>(receivers: Seq<OpaqueIpcReceiver<R>>) -> Seq<R> {
    receivers.map_values(|receiver: OpaqueIpcReceiver<R>| receiver.opaque_receiver)
}

/// What the replay of one logged result takes from the receivers. A result that is replayed comes before
/// what is kept, and what came instead of it comes after.
pub open spec fn event_takes<R, A>(
    before: SetView<R, A>,
    seen: Arrivals<R, A>,
    event: IpcSelectEventView,
    outcome: EventOutcome<A>,
    after: SetView<R, A>,
) -> bool {
    &&& on_receivers(seen, real_ends(before.receivers))
    &&& match outcome {
        EventOutcome::Replayed(result) => set_accounted(
            path_of(),
            before.queues,
            seen,
            seq![slot_of(event)],
            seq![result],
            None,
            after.queues,
        ),
        EventOutcome::Desync(_, last) => set_accounted(
            path_of(),
            before.queues,
            seen,
            Seq::empty(),
            Seq::empty(),
            Some(last),
            after.queues,
        ),
        EventOutcome::Broken(_) => true,
    }
}

/// What a select takes from the receivers. The results come before what is kept, and what came instead
/// of a logged result comes after.
pub open spec fn select_takes<R, A, E>(
    before: SetView<R, A>,
    seen: Arrivals<R, A>,
    events: Seq<IpcSelectEventView>,
    r: IpcSelecting<A, E>,
    after: SetView<R, A>,
) -> bool {
    &&& on_receivers(seen, real_ends(before.receivers))
    &&& match r {
        IpcSelecting::Selected(Ok(results)) => set_accounted(
            path_of(),
            before.queues,
            seen,
            slots_of(events),
            results@,
            None,
            after.queues,
        ),
        IpcSelecting::Selected(Err(_)) => seen.len() == 0,
        IpcSelecting::Desync(_, results, last) => results@.len() <= events.len() && set_accounted(
            path_of(),
            before.queues,
            seen,
            slots_of(events.take(results@.len() as int)),
            results@,
            last,
            after.queues,
        ),
        IpcSelecting::Broken(_) => true,
    }
}

/// The logged results that a select follows: those of its entry while it replays.
pub open spec fn followed<R, A>(
    set: IpcReceiverSet<R, A>,
    indices: IndicesView,
    thread: ContextView,
) -> Option<Seq<IpcSelectEventView>> {
    if thread.desynced || set.mode != RRMode::Replay || set.desynced {
        None
    } else {
        match next_logged(indices, thread) {
            Ok(logged) => match logged.event {
                RecordedView::IpcSelect { select_events } => Some(select_events),
                _ => None,
            },
            Err(_) => None,
        }
    }
}

/// What a select takes from the receivers in each of the modes: nothing, unless it follows the log.
pub open spec fn set_select_takes<R, A, E>(
    set: IpcReceiverSet<R, A>,
    indices: IndicesView,
    thread: ContextView,
    seen: Arrivals<R, A>,
    r: IpcSelecting<A, E>,
    after: SetView<R, A>,
) -> bool {
    match followed(set, indices, thread) {
        Some(events) => select_takes(set@, seen, events, r, after),
        None => seen.len() == 0,
    }
}

/// A select with the outcome `outcome` takes from the receivers what was seen, and is then settled.
pub open spec fn select_accounted<R, A, E>(
    before: IpcReceiverSet<R, A>,
    indices: IndicesView,
    thread: ContextView,
    seen: Arrivals<R, A>,
    outcome: IpcSelecting<A, E>,
    mid: ContextView,
    set: IpcReceiverSet<R, A>,
    r: IpcSelectStep<R, A, E>,
    thread_after: ContextView,
    after: IpcReceiverSet<R, A>,
) -> bool {
    &&& set_select_takes(before, indices, thread, seen, outcome, set@)
    &&& settled_set_select(outcome, mid, set, r, thread_after, after)
}

/// All calls of `recv` are accounted for by a select.
pub open spec fn calls_select<R, A, E, F>(
    recv: F,
    before: IpcReceiverSet<R, A>,
    indices: IndicesView,
    thread: ContextView,
    r: IpcSelectStep<R, A, E>,
    thread_after: ContextView,
    after: IpcReceiverSet<R, A>,
) -> bool {
    exists|
        seen: Arrivals<R, A>,
        outcome: IpcSelecting<A, E>,
        mid: ContextView,
        set: IpcReceiverSet<R, A>,
    |
        {
            &&& all_calls_at(recv, seen)
            &&& #[trigger] select_accounted(
                before,
                indices,
                thread,
                seen,
                outcome,
                mid,
                set,
                r,
                thread_after,
                after,
            )
        }
}

impl<R, A> IpcReceiverSet<R, A> {
    pub open spec fn wf(self) -> bool {
        &&& forall|i: int| 0 <= i < self.buffer@.len() ==> (#[trigger] self.buffer@[i]).wf()
        &&& if self.desynced {
            self.receivers@.len() == 0
        } else {
            self.receivers@.len() == self.index && self.buffer@.len() == self.index
        }
    }

    /// Nothing but the receivers and what is kept for them may differ.
    pub open spec fn same_set(self, other: IpcReceiverSet<R, A>) -> bool {
        &&& self.mode == other.mode
        &&& self.index == other.index
        &&& self.desynced == other.desynced
    }

    /// An empty set, once there is a real one.
    pub fn new(thread: &ThreadContext) -> (set: IpcReceiverSet<R, A>)
        ensures
            set.wf(),
            set.mode == thread@.mode,
            set.index == 0,
            !set.desynced,
            set@.receivers == Seq::<OpaqueIpcReceiver<R>>::empty(),
            set@.queues == Seq::<Map<Option<Seq<u32>>, Seq<OpaqueIpcMessage<A>>>>::empty(),
    {
        let set = IpcReceiverSet {
            mode: thread.mode,
            index: 0,
            receivers: Vec::new(),
            buffer: Vec::new(),
            desynced: false,
        };
        assert(set@.queues =~= Seq::<Map<Option<Seq<u32>>, Seq<OpaqueIpcMessage<A>>>>::empty());
        set
    }

    /// Replays one logged result of a select.
    pub fn replay_select_event<F: CallsAt<R, Attempt<A>>>(
        &mut self,
        event: &IpcSelectEvent,
        tap: &mut SetTap<F, R, Attempt<A>>,
    ) -> (outcome: EventOutcome<A>)
        requires
            old(self).wf(),
            !old(self).desynced,
            ready_for_all::<R, Attempt<A>, F>(old(tap).calls()),
        ensures
            final(self).wf(),
            final(self).same_set(*old(self)),
            final(tap).calls() == old(tap).calls(),
            real_ends(final(self)@.receivers) == real_ends(old(self)@.receivers),
            event_step(
                gives_each(old(tap).calls()),
                old(self)@,
                event@,
                outcome,
                final(self)@,
            ),
            old(tap).seen().is_prefix_of(final(tap).seen()),
            event_takes(
                old(self)@,
                since(old(tap).seen(), final(tap).seen()),
                event@,
                outcome,
                final(self)@,
            ),
    {
        let ghost calls = tap.calls();
        let ghost tries = gives_each::<R, Attempt<A>, F>(calls);
        let ghost earlier = tap.seen();
        let ghost queues = self@.queues;
        proof {
            assert(since(earlier, earlier) =~= Seq::<(int, R, Attempt<A>)>::empty());
        }
        match event {
            IpcSelectEvent::MessageReceived(index, expected_sender) => {
                if *index >= self.receivers.len() as u64 {
                    return EventOutcome::Broken(Broken::MissingReceiver(*index));
                }
                let i: usize = *index as usize;
                let w = do_replay_recv_for_entry(
                    &mut self.buffer[i],
                    expected_sender,
                    &self.receivers[i].opaque_receiver,
                    Ghost(i as int),
                    tap,
                );
                let ghost seen = w;
                let ghost receiver = old(self).receivers@[i as int].opaque_receiver;
                assert((|a: Attempt<A>| tries(receiver, a)) =~= gives_one::<R, Attempt<A>, F>(
                    calls,
                    receiver,
                ));
                let ghost delta = since(earlier, tap.seen());
                let outcome = match w {
                    Waited::Found(msg) => EventOutcome::Replayed(
                        IpcSelectionResult::MessageReceived(*index, msg),
                    ),
                    Waited::Closed => {
                        self.receivers[i].closed = true;
                        EventOutcome::Desync(
                            DesyncError::ChannelClosedUnexpected(*index),
                            IpcSelectionResult::ChannelClosed(*index),
                        )
                    },
                    Waited::Failed => EventOutcome::Broken(Broken::UnknownError),
                    Waited::Unreadable => EventOutcome::Broken(Broken::UnreadableSender),
                    Waited::Exhausted => EventOutcome::Broken(Broken::Exhausted),
                };
                assert(message_step(
                    tries,
                    old(self)@,
                    *index as int,
                    expected_sender@,
                    seen,
                    self@,
                ));
                assert(outcome == waited_event(*index, seen));
                let ghost done = outcome;
                proof {
                    assert(real_ends(self@.receivers) =~= real_ends(old(self)@.receivers));
                    let (slots, results, last) = match done {
                        EventOutcome::Replayed(result) => (
                            seq![slot_of(event@)],
                            seq![result],
                            None::<IpcSelectionResult<A>>,
                        ),
                        EventOutcome::Desync(_, last) => (Seq::empty(), Seq::empty(), Some(last)),
                        EventOutcome::Broken(_) => (Seq::empty(), Seq::empty(), None),
                    };
                    if let Waited::Found(msg) = seen {
                        assert(results == seq![received(*index, msg)]);
                    }
                    lemma_set_wait(
                        path_of(),
                        queues,
                        delta,
                        i as int,
                        receiver,
                        expected_sender@,
                        found_message(seen),
                        slots,
                        results,
                        last,
                        self@.queues,
                    );
                }
                outcome
            },
            IpcSelectEvent::ChannelClosed(index) => {
                if *index >= self.receivers.len() as u64 {
                    return EventOutcome::Broken(Broken::MissingReceiver(*index));
                }
                let i: usize = *index as usize;
                let got = tap.call(&self.receivers[i].opaque_receiver, Ghost(i as int));
                let ghost seen = got;
                let ghost receiver = old(self).receivers@[i as int].opaque_receiver;
                let ghost delta = since(earlier, tap.seen());
                proof {
                    let none = Seq::<(int, R, Attempt<A>)>::empty();
                    assert(earlier + none =~= earlier);
                    lemma_tried_once(earlier, i as int, receiver, got);
                    lemma_tried_since(earlier, none, i as int, receiver, got, tap.seen());
                    lemma_still_at(none, i as int, receiver, got, delta);
                }
                let outcome = match got {
                    Attempt::Closed => {
                        self.receivers[i].closed = true;
                        EventOutcome::Replayed(IpcSelectionResult::ChannelClosed(*index))
                    },
                    Attempt::Failed => EventOutcome::Broken(Broken::UnknownError),
                    Attempt::Message(msg) => EventOutcome::Desync(
                        DesyncError::ChannelClosedExpected,
                        IpcSelectionResult::MessageReceived(*index, msg),
                    ),
                };
                assert(close_step(tries, old(self)@, *index as int, seen, self@));
                assert(outcome == closed_event(*index, seen));
                let ghost done = outcome;
                proof {
                    assert(real_ends(self@.receivers) =~= real_ends(old(self)@.receivers));
                    let (slots, results, last) = match done {
                        EventOutcome::Replayed(result) => (
                            seq![slot_of(event@)],
                            seq![result],
                            None::<IpcSelectionResult<A>>,
                        ),
                        EventOutcome::Desync(_, last) => (Seq::empty(), Seq::empty(), Some(last)),
                        EventOutcome::Broken(_) => (Seq::empty(), Seq::empty(), None),
                    };
                    lemma_set_close(
                        path_of(),
                        queues,
                        delta,
                        *index,
                        receiver,
                        seen,
                        slots,
                        results,
                        last,
                    );
                }
                outcome
            },
        }
    }

    /// Replays the results of a logged select, one after the other.
    fn replay_select<E, F: CallsAt<R, Attempt<A>>>(
        &mut self,
        select_events: Vec<IpcSelectEvent>,
        tap: &mut SetTap<F, R, Attempt<A>>,
    ) -> (r: IpcSelecting<A, E>)
        requires
            old(self).wf(),
            !old(self).desynced,
            ready_for_all::<R, Attempt<A>, F>(old(tap).calls()),
        ensures
            final(self).wf(),
            final(self).same_set(*old(self)),
            final(tap).calls() == old(tap).calls(),
            events_step(
                gives_each(old(tap).calls()),
                old(self)@,
                select_events_view(select_events@),
                r,
                final(self)@,
            ),
            old(tap).seen().is_prefix_of(final(tap).seen()),
            select_takes(
                old(self)@,
                since(old(tap).seen(), final(tap).seen()),
                select_events_view(select_events@),
                r,
                final(self)@,
            ),
    {
        let ghost tries = gives_each::<R, Attempt<A>, F>(tap.calls());
        let ghost earlier = tap.seen();
        let ghost queues = self@.queues;
        let ghost ends = real_ends(self@.receivers);
        proof {
            assert(since(earlier, earlier) =~= Seq::<(int, R, Attempt<A>)>::empty());
            lemma_set_idle::<Option<Seq<u32>>, R, A>(path_of(), queues);
        }
        let ghost logged = select_events_view(select_events@);
        let mut events: Vec<IpcSelectionResult<A>> = Vec::new();
        let mut k: usize = 0;
        assert(logged.take(0) =~= Seq::<IpcSelectEventView>::empty());
        assert(slots_of(logged.take(0)) =~= Seq::<Option<(int, Option<Seq<u32>>)>>::empty());
        while k < select_events.len()
            invariant
                k <= select_events@.len(),
                logged == select_events_view(select_events@),
                tries == gives_each::<R, Attempt<A>, F>(tap.calls()),
                tap.calls() == old(tap).calls(),
                earlier == old(tap).seen(),
                queues == old(self)@.queues,
                ends == real_ends(old(self)@.receivers),
                ends == real_ends(self@.receivers),
                earlier.is_prefix_of(tap.seen()),
                on_receivers(since(earlier, tap.seen()), ends),
                set_accounted(
                    path_of(),
                    queues,
                    since(earlier, tap.seen()),
                    slots_of(logged.take(k as int)),
                    events@,
                    None,
                    self@.queues,
                ),
                self.wf(),
                !self.desynced,
                self.same_set(*old(self)),
                ready_for_all::<R, Attempt<A>, F>(tap.calls()),
                events_replayed(tries, old(self)@, logged.take(k as int), events@, self@),
            decreases select_events@.len() - k,
        {
            let ghost mid = self@;
            let ghost results = events@;
            let ghost before = tap.seen();
            let outcome = self.replay_select_event(&select_events[k], tap);
            let ghost seen = outcome;
            proof {
                let first = since(earlier, before);
                let second = since(before, tap.seen());
                assert(since(earlier, tap.seen()) =~= first + second);
                assert(on_receivers(first + second, ends));
                let slots = slots_of(logged.take(k as int));
                assert(logged.take(k as int).push(logged[k as int]) =~= logged.take(k + 1));
                assert(slots_of(logged.take(k + 1)) =~= slots.push(slot_of(logged[k as int])));
                let (more_slots, more, last) = match seen {
                    EventOutcome::Replayed(result) => (
                        seq![slot_of(logged[k as int])],
                        seq![result],
                        None::<IpcSelectionResult<A>>,
                    ),
                    EventOutcome::Desync(_, last) => (Seq::empty(), Seq::empty(), Some(last)),
                    EventOutcome::Broken(_) => (Seq::empty(), Seq::empty(), None),
                };
                if !(seen is Broken) {
                    lemma_set_chain(
                        path_of(),
                        queues,
                        first,
                        slots,
                        results,
                        mid.queues,
                        second,
                        more_slots,
                        more,
                        last,
                        self@.queues,
                    );
                }
                if seen is Replayed {
                    assert(slots + more_slots =~= slots.push(slot_of(logged[k as int])));
                    assert(results + more =~= results.push(more[0]));
                } else {
                    assert(slots + more_slots =~= slots);
                    assert(results + more =~= results);
                }
            }
            assert(event_step(tries, mid, logged[k as int], seen, self@));
            match outcome {
                EventOutcome::Replayed(entry) => {
                    proof {
                        lemma_one_more(
                            tries,
                            old(self)@,
                            logged.take(k as int),
                            results,
                            mid,
                            logged[k as int],
                            entry,
                            self@,
                        );
                        assert(logged.take(k as int).push(logged[k as int]) =~= logged.take(k + 1));
                    }
                    events.push(entry);
                },
                EventOutcome::Desync(error, entry) => {
                    let r = IpcSelecting::Desync(error, events, Some(entry));
                    assert(failed_at(
                        tries,
                        old(self)@,
                        logged,
                        k as int,
                        results,
                        mid,
                        seen,
                        r,
                        self@,
                    ));
                    return r;
                },
                EventOutcome::Broken(b) => {
                    let r = IpcSelecting::Broken(b);
                    assert(failed_at(
                        tries,
                        old(self)@,
                        logged,
                        k as int,
                        results,
                        mid,
                        seen,
                        r,
                        self@,
                    ));
                    return r;
                },
            }
            k += 1;
        }
        assert(logged.take(k as int) =~= logged);
        IpcSelecting::Selected(Ok(events))
    }

    /// Selects as the mode demands. The second part of the result is to be appended to the log.
    pub fn record_replay_select<
        E,
        L: FnOnce() -> Result<Vec<IpcSelectionResult<A>>, E>,
        F: CallsAt<R, Attempt<A>>,
    >(
        &mut self,
        thread: &mut ThreadContext,
        indices: &RecordedIndices,
        real_select: L,
        tap: &mut SetTap<F, R, Attempt<A>>,
    ) -> (out: (IpcSelecting<A, E>, Option<LogEntry>))
        requires
            old(self).wf(),
            indices.wf(),
            old(thread)@.event_id < u32::MAX,
            old(self).mode != RRMode::Replay && !old(thread)@.desynced ==> call_requires(
                real_select,
                (),
            ),
            ready_for_all::<R, Attempt<A>, F>(old(tap).calls()),
        ensures
            final(self).wf(),
            final(self).same_set(*old(self)),
            final(tap).calls() == old(tap).calls(),
            keyed_set_select(
                *old(self),
                indices@,
                |selected: Result<Vec<IpcSelectionResult<A>>, E>|
                    call_ensures(real_select, (), selected),
                gives_each(old(tap).calls()),
                old(thread)@,
                out.0,
                entry_view(out.1),
                final(thread)@,
                final(self)@,
            ),
            old(tap).seen().is_prefix_of(final(tap).seen()),
            set_select_takes(
                *old(self),
                indices@,
                old(thread)@,
                since(old(tap).seen(), final(tap).seen()),
                out.0,
                final(self)@,
            ),
    {
        let ghost selects = |selected: Result<Vec<IpcSelectionResult<A>>, E>|
            call_ensures(real_select, (), selected);
        assert(since(tap.seen(), tap.seen()) =~= Seq::<(int, R, Attempt<A>)>::empty());
        if thread.desynced {
            return (IpcSelecting::Desync(DesyncError::Desynchronized, Vec::new(), None), None);
        }
        match self.mode {
            RRMode::Record => {
                let selected = real_select();
                log_selection(thread, selected)
            },
            RRMode::Replay => {
                if self.desynced {
                    return (IpcSelecting::Desync(DesyncError::Desynchronized, Vec::new(), None), None);
                }
                let det_id = match get_det_id_desync(thread) {
                    Ok(id) => id,
                    Err(e) => {
                        return (IpcSelecting::Desync(e, Vec::new(), None), None);
                    },
                };
                match get_log_entry(indices, det_id, get_event_id(thread)) {
                    Err(e) => (IpcSelecting::Desync(e, Vec::new(), None), None),
                    Ok(event) => match event {
                        Recorded::IpcSelect { select_events } => {
                            let r = self.replay_select(select_events, tap);
                            match &r {
                                IpcSelecting::Selected(_) => {
                                    inc_event_id(thread);
                                },
                                _ => {},
                            }
                            (r, None)
                        },
                        event => {
                            let dummy = Recorded::IpcSelect { select_events: Vec::new() };
                            assert(dummy@ == (RecordedView::IpcSelect {
                                select_events: Seq::<IpcSelectEventView>::empty(),
                            })) by {
                                assert(select_events_view(Seq::<IpcSelectEvent>::empty())
                                    =~= Seq::<IpcSelectEventView>::empty());
                            }
                            (
                                IpcSelecting::Desync(
                                    DesyncError::EventMismatch(event, dummy),
                                    Vec::new(),
                                    None,
                                ),
                                None,
                            )
                        },
                    },
                }
            },
            RRMode::NoRR => {
                let selected = real_select();
                assert(selects(selected));
                (IpcSelecting::Selected(selected), None)
            },
        }
    }

    /// Gives up the replay: all receivers are to be added to the real set, in this order. Their
    /// indices then stay the same.
    pub fn move_receivers_to_set(&mut self) -> (to_move: Vec<MovedReceiver<R>>)
        requires
            old(self).wf(),
        ensures
            final(self).wf(),
            to_move@ == moved_receivers(*old(self)),
            final(self).desynced,
            final(self).mode == old(self).mode,
            final(self).index == old(self).index,
            final(self)@.queues == old(self)@.queues,
            final(self)@.receivers.len() == 0,
    {
        let mut to_move: Vec<MovedReceiver<R>> = Vec::new();
        if !self.desynced {
            let mut receivers: Vec<OpaqueIpcReceiver<R>> = Vec::new();
            std::mem::swap(&mut self.receivers, &mut receivers);
            self.desynced = true;
            let ghost all = receivers@;
            let mut reversed: Vec<OpaqueIpcReceiver<R>> = reverse(receivers);
            while reversed.len() > 0
                invariant
                    to_move@.len() + reversed@.len() == all.len(),
                    forall|j: int|
                        0 <= j < reversed@.len() ==> #[trigger] reversed@[j] == all[all.len() - 1
                            - j],
                    forall|j: int|
                        0 <= j < to_move@.len() ==> #[trigger] to_move@[j] == moved(all[j]),
                decreases reversed@.len(),
            {
                match reversed.pop() {
                    Some(r) => {
                        if r.closed {
                            to_move.push(MovedReceiver::Dummy);
                        } else {
                            to_move.push(MovedReceiver::Open(r.opaque_receiver));
                        }
                    },
                    None => {},
                }
            }
        }
        assert(to_move@ =~= moved_receivers(*old(self)));
        to_move
    }

    /// Takes all messages that are kept, as if they were the results of a select.
    pub fn get_buffered_entries(&mut self) -> (entries: Option<Vec<IpcSelectionResult<A>>>)
        requires
            old(self).wf(),
        ensures
            final(self).wf(),
            final(self).same_set(*old(self)),
            final(self)@.receivers == old(self)@.receivers,
            final(self)@.queues.len() == old(self)@.queues.len(),
            forall|i: int|
                0 <= i < final(self)@.queues.len() ==> all_empty(
                    #[trigger] final(self)@.queues[i],
                ),
            match entries {
                Some(entries) => entries@.len() > 0 && all_buffered(
                    old(self)@.queues,
                    entries@,
                ),
                None => all_buffered(old(self)@.queues, Seq::<IpcSelectionResult<A>>::empty()),
            },
    {
        let mut entries: Vec<IpcSelectionResult<A>> = Vec::new();
        let ghost mut parts: Seq<Seq<OpaqueIpcMessage<A>>> = Seq::empty();
        let ghost queues = self@.queues;
        let mut i: usize = 0;
        while i < self.buffer.len()
            invariant
                i <= self.buffer@.len(),
                self.wf(),
                self.same_set(*old(self)),
                self.receivers == old(self).receivers,
                self.buffer@.len() == old(self).buffer@.len(),
                queues == old(self)@.queues,
                forall|j: int|
                    i <= j < self.buffer@.len() ==> #[trigger] self.buffer@[j]
                        == old(self).buffer@[j],
                forall|j: int| 0 <= j < i ==> all_empty(contents(#[trigger] self.buffer@[j])),
                parts.len() == i,
                forall|j: int| 0 <= j < i ==> drained(#[trigger] queues[j], parts[j]),
                entries@ == crate::ipc_set::joined_results(parts),
            decreases self.buffer@.len() - i,
        {
            let ghost before = parts;
            let msgs = self.buffer[i].drain_messages();
            proof {
                parts = parts.push(msgs@);
                assert(parts.drop_last() =~= before);
            }
            crate::ipc_set::push_results(i as u64, msgs, &mut entries);
            i += 1;
        }
        if entries.len() == 0 {
            assert(entries@ =~= Seq::<IpcSelectionResult<A>>::empty());
            None
        } else {
            Some(entries)
        }
    }

    /// Adds a receiver as the mode demands. The second part of the result is to be appended to the
    /// log.
    pub fn record_replay_add<E, F: FnOnce(R) -> Result<u64, E>>(
        &mut self,
        thread: &mut ThreadContext,
        indices: &RecordedIndices,
        receiver: OpaqueIpcReceiver<R>,
        real_add: F,
    ) -> (out: (Adding<R, E>, Option<LogEntry>))
        requires
            old(self).wf(),
            indices.wf(),
            old(self).index < usize::MAX,
            old(thread)@.event_id < u32::MAX,
            forall|receiver: R| #[trigger] call_requires(real_add, (receiver,)),
        ensures
            final(self).wf(),
            keyed_add(
                *old(self),
                receiver,
                indices@,
                |receiver: R, added: Result<u64, E>| call_ensures(real_add, (receiver,), added),
                old(thread)@,
                out.0,
                entry_view(out.1),
                final(thread)@,
                *final(self),
            ),
    {
        let ghost adds = |receiver: R, added: Result<u64, E>|
            call_ensures(real_add, (receiver,), added);
        if thread.desynced {
            return (Adding::Refused(DesyncError::Desynchronized, receiver), None);
        }
        if self.desynced {
            return (Adding::Refused(DesyncError::Desynchronized, receiver), None);
        }
        match self.mode {
            RRMode::Record => {
                let OpaqueIpcReceiver { opaque_receiver, metadata, closed: _ } = receiver;
                let added = real_add(opaque_receiver);
                let ghost seen = added;
                match added {
                    Err(_) => {
                        assert(recorded_add(
                            seen,
                            tag_of(metadata),
                            old(thread)@,
                            Adding::<R, E>::Added(seen),
                            None,
                            thread@,
                        ));
                        (Adding::Added(added), None)
                    },
                    Ok(index) => {
                        let entry = log(
                            thread,
                            Recorded::IpcSelectAdd(index),
                            metadata.flavor,
                            &metadata.message_type,
                            &metadata.id,
                        );
                        assert(recorded_add(
                            seen,
                            tag_of(metadata),
                            old(thread)@,
                            Adding::<R, E>::Added(seen),
                            Some(entry@),
                            thread@,
                        ));
                        (Adding::Added(Ok(index)), Some(entry))
                    },
                }
            },
            RRMode::Replay => {
                let det_id = match get_det_id_desync(thread) {
                    Ok(id) => id,
                    Err(e) => {
                        return (Adding::Refused(e, receiver), None);
                    },
                };
                let event_id: u32 = get_event_id(thread);
                let log_entry = match get_log_entry_with(
                    indices,
                    det_id,
                    event_id,
                    receiver.metadata.flavor,
                    &receiver.metadata.id,
                ) {
                    Ok(event) => event,
                    Err(e) => {
                        return (Adding::Refused(e, receiver), None);
                    },
                };
                let index: u64 = self.index as u64;
                match log_entry {
                    Recorded::IpcSelectAdd(r_index) => {
                        if r_index != index {
                            return (
                                Adding::Refused(
                                    DesyncError::SelectIndexMismatch(r_index, index),
                                    receiver,
                                ),
                                None,
                            );
                        }
                        if self.index < self.receivers.len() {
                            return (
                                Adding::Refused(DesyncError::SelectExistingEntry(index), receiver),
                                None,
                            );
                        }
                        self.receivers.push(receiver);
                        self.buffer.push(ThreadMap::new());
                        self.index = self.index + 1;
                        inc_event_id(thread);
                        assert(contents(self.buffer@.last()) =~= Map::<
                            Option<Seq<u32>>,
                            Seq<OpaqueIpcMessage<A>>,
                        >::empty());
                        assert(self@.queues =~= old(self)@.queues.push(
                            Map::<Option<Seq<u32>>, Seq<OpaqueIpcMessage<A>>>::empty(),
                        ));
                        (Adding::Added(Ok(index)), None)
                    },
                    event => {
                        let dummy = Recorded::IpcSelectAdd(u64::MAX);
                        (
                            Adding::Refused(DesyncError::EventMismatch(event, dummy), receiver),
                            None,
                        )
                    },
                }
            },
            RRMode::NoRR => {
                let ghost handed = receiver.opaque_receiver;
                let added = real_add(receiver.opaque_receiver);
                assert(adds(handed, added));
                (Adding::Added(added), None)
            },
        }
    }

    /// Adds a receiver whose messages are not decoded. The second part of the result is to be
    /// appended to the log.
    pub fn add_opaque<E, F: FnOnce(R) -> Result<u64, E>>(
        &mut self,
        thread: &mut ThreadContext,
        indices: &RecordedIndices,
        receiver: OpaqueIpcReceiver<R>,
        real_add: F,
    ) -> (out: (AddStep<R, E>, Option<LogEntry>))
        requires
            old(self).wf(),
            indices.wf(),
            old(self).index < usize::MAX,
            old(thread)@.event_id < u32::MAX,
            forall|receiver: R| #[trigger] call_requires(real_add, (receiver,)),
        ensures
            final(self).wf(),
            keyed_add_step(
                *old(self),
                receiver,
                indices@,
                |receiver: R, added: Result<u64, E>| call_ensures(real_add, (receiver,), added),
                old(thread)@,
                out.0,
                entry_view(out.1),
                final(thread)@,
                *final(self),
            ),
    {
        let ghost adds = |receiver: R, added: Result<u64, E>|
            call_ensures(real_add, (receiver,), added);
        let ghost handed = receiver;
        let (outcome, entry) = self.record_replay_add(thread, indices, receiver, real_add);
        let ghost seen = outcome;
        let ghost mid = thread@;
        let ghost set = *self;
        assert(keyed_add(
            *old(self),
            handed,
            indices@,
            adds,
            old(thread)@,
            seen,
            entry_view(entry),
            mid,
            set,
        ));
        let r = match outcome {
            Adding::Added(v) => AddStep::Done(v),
            Adding::Refused(e, receiver) => match thread.desync_mode {
                DesyncMode::Panic => AddStep::Panic(e),
                DesyncMode::KeepGoing => {
                    mark_program_as_desynced(thread);
                    let to_move = self.move_receivers_to_set();
                    use_up_ids(thread, &to_move);
                    inc_event_id(thread);
                    AddStep::Desync { to_move, receiver: receiver.opaque_receiver }
                },
            },
        };
        assert(settled_add(seen, mid, set, r, thread@, *self));
        (r, entry)
    }

    /// Adds a receiver. The second part of the result is to be appended to the log.
    pub fn add<T, E, F: FnOnce(R) -> Result<u64, E>>(
        &mut self,
        thread: &mut ThreadContext,
        indices: &RecordedIndices,
        receiver: IpcReceiver<T>,
        real_receiver: R,
        real_add: F,
    ) -> (out: (AddStep<R, E>, Option<LogEntry>))
        requires
            old(self).wf(),
            indices.wf(),
            old(self).index < usize::MAX,
            old(thread)@.event_id < u32::MAX,
            forall|receiver: R| #[trigger] call_requires(real_add, (receiver,)),
        ensures
            final(self).wf(),
            keyed_add_step(
                *old(self),
                OpaqueIpcReceiver {
                    opaque_receiver: real_receiver,
                    metadata: receiver.metadata,
                    closed: false,
                },
                indices@,
                |receiver: R, added: Result<u64, E>| call_ensures(real_add, (receiver,), added),
                old(thread)@,
                out.0,
                entry_view(out.1),
                final(thread)@,
                *final(self),
            ),
    {
        self.add_opaque(thread, indices, receiver.to_opaque(real_receiver), real_add)
    }

    /// Selects on a desynchronized thread, or gives up, as the thread's mode demands.
    fn select_on_desync<E>(
        &mut self,
        thread: &mut ThreadContext,
        desync: DesyncError,
        kept: Vec<IpcSelectionResult<A>>,
        last: Option<IpcSelectionResult<A>>,
    ) -> (r: IpcSelectStep<R, A, E>)
        requires
            old(self).wf(),
            old(thread)@.event_id < u32::MAX,
        ensures
            final(self).wf(),
            desync_set_select(
                desync@,
                kept@,
                last,
                old(thread)@,
                *old(self),
                r,
                final(thread)@,
                *final(self),
            ),
    {
        match thread.desync_mode {
            DesyncMode::Panic => IpcSelectStep::Panic(desync),
            DesyncMode::KeepGoing => {
                mark_program_as_desynced(thread);
                let to_move = self.move_receivers_to_set();
                use_up_ids(thread, &to_move);
                let entries = join_entries(kept, self.get_buffered_entries(), last);
                inc_event_id(thread);
                IpcSelectStep::Desync { to_move, entries }
            },
        }
    }

    /// Selects messages, and channels that are closed, blocking until there is one. The second part
    /// of the result is to be appended to the log.
    pub fn select<
        E,
        L: FnOnce() -> Result<Vec<IpcSelectionResult<A>>, E>,
        F: CallsAt<R, Attempt<A>>,
    >(
        &mut self,
        thread: &mut ThreadContext,
        indices: &RecordedIndices,
        real_select: L,
        recv: F,
    ) -> (out: (IpcSelectStep<R, A, E>, Option<LogEntry>))
        requires
            old(self).wf(),
            indices.wf(),
            old(thread)@.event_id < u32::MAX,
            old(self).mode != RRMode::Replay && !old(thread)@.desynced ==> call_requires(
                real_select,
                (),
            ),
            ready_for_all::<R, Attempt<A>, F>(recv),
        ensures
            final(self).wf(),
            keyed_set_select_step(
                *old(self),
                indices@,
                |selected: Result<Vec<IpcSelectionResult<A>>, E>|
                    call_ensures(real_select, (), selected),
                gives_each(recv),
                old(thread)@,
                out.0,
                entry_view(out.1),
                final(thread)@,
                *final(self),
            ),
            calls_select(
                recv,
                *old(self),
                indices@,
                old(thread)@,
                out.0,
                final(thread)@,
                *final(self),
            ),
    {
        let ghost selects = |selected: Result<Vec<IpcSelectionResult<A>>, E>|
            call_ensures(real_select, (), selected);
        let ghost tries = gives_each::<R, Attempt<A>, F>(recv);
        let mut tap = SetTap::new(recv);
        let (outcome, entry) = self.record_replay_select(thread, indices, real_select, &mut tap);
        let ghost all = tap;
        let close = SetTap::<F, R, Attempt<A>>::close;
        let calls = close(tap);
        let ghost seen = outcome;
        let ghost mid = thread@;
        let ghost set = *self;
        assert(keyed_set_select(
            *old(self),
            indices@,
            selects,
            tries,
            old(thread)@,
            seen,
            entry_view(entry),
            mid,
            set@,
        ));
        let r = match outcome {
            IpcSelecting::Selected(v) => IpcSelectStep::Done(v),
            IpcSelecting::Broken(b) => IpcSelectStep::Broken(b),
            IpcSelecting::Desync(DesyncError::NoEntryInLog(_, _), _, _) => IpcSelectStep::Park,
            IpcSelecting::Desync(e, kept, last) => self.select_on_desync(thread, e, kept, last),
        };
        assert(settled_set_select(seen, mid, set, r, thread@, *self));
        proof {
            assert(all_calls_at(recv, calls@));
            assert(since(Seq::<(int, R, Attempt<A>)>::empty(), calls@) =~= calls@);
            assert(select_accounted(
                *old(self),
                indices@,
                old(thread)@,
                calls@,
                seen,
                mid,
                set,
                r,
                thread@,
                *self,
            ));
        }
        (r, entry)
    }
}

} // verus!
