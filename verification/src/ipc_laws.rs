//! How selects on sets of receivers that are replayed meet those that were recorded.

use vstd::prelude::*;
use crate::detthread::{DetThreadId, ThreadView};
use crate::error::DesyncErrorView;
use crate::ipc::OpaqueIpcReceiver;
use crate::ipc_message::{
    opaque_polls, sender_of, Attempt, IpcSelectionResult, OpaqueIpcMessage, Waited,
};
use crate::ipc_set::{
    add_relation, all_buffered, event_of, event_step, events_of, events_replayed, given_up,
    ipc_select_relation, message_step, readable, waited_event, with_last, Adding, EventOutcome,
    IpcReceiverSet, IpcSelecting, SetView,
};
use crate::laws::{
    is_run, is_wait, kept, law_expected_receive_is_a_wait, law_idle_operation_is_a_wait, Wait,
};
use crate::mode::RRMode;
use crate::recordlog::{IpcSelectEventView, TivoEventView};
use crate::rr::{expected_recv, recv_expected, stash, Poll};
use crate::thread_map::queue_of;

verus! {

/// Every message is kept for the sender that it carries.
pub open spec fn kept_by_sender<A>(queues: Map<Seq<u32>, Seq<OpaqueIpcMessage<A>>>) -> bool {
    forall|sender: Seq<u32>, j: int|
        0 <= j < queue_of(queues, sender).len() ==> sender_of(
            (#[trigger] queue_of(queues, sender)[j]).data@,
        ) == Some(sender)
}

/// Every message of every receiver is kept for the sender that it carries.
pub open spec fn set_in_order<R, A>(set: SetView<R, A>) -> bool {
    &&& set.queues.len() == set.receivers.len()
    &&& forall|i: int| 0 <= i < set.queues.len() ==> kept_by_sender(#[trigger] set.queues[i])
}

proof fn lemma_stash_in_order<A>(
    queues: Map<Seq<u32>, Seq<OpaqueIpcMessage<A>>>,
    polls: Seq<Poll<OpaqueIpcMessage<A>>>,
    tries: spec_fn(Attempt<A>) -> bool,
)
    requires
        kept_by_sender(queues),
        forall|i: int| 0 <= i < polls.len() ==> opaque_polls(tries)(#[trigger] polls[i]),
    ensures
        kept_by_sender(stash(queues, polls)),
    decreases polls.len(),
{
    if polls.len() > 0 {
        let rest = polls.drop_last();
        assert forall|i: int| 0 <= i < rest.len() implies opaque_polls(tries)(
            #[trigger] rest[i],
        ) by {
            assert(rest[i] == polls[i]);
        }
        lemma_stash_in_order(queues, rest, tries);
        let earlier = stash(queues, rest);
        let all = stash(queues, polls);
        match polls.last() {
            Ok((id, msg)) => {
                assert(opaque_polls(tries)(polls[polls.len() - 1]));
                assert forall|sender: Seq<u32>, j: int|
                    0 <= j < queue_of(all, sender).len() implies sender_of(
                    (#[trigger] queue_of(all, sender)[j]).data@,
                ) == Some(sender) by {
                    if sender == id@ {
                        assert(queue_of(all, sender) == queue_of(earlier, sender).push(msg));
                        if j < queue_of(earlier, sender).len() {
                            assert(queue_of(all, sender)[j] == queue_of(earlier, sender)[j]);
                        }
                    } else {
                        assert(queue_of(all, sender) == queue_of(earlier, sender));
                    }
                }
            },
            Err(_) => {},
        }
    }
}

/// A wait gives a message of the sender that it waits for.
proof fn lemma_wait_in_order<A>(
    queues: Map<Seq<u32>, Seq<OpaqueIpcMessage<A>>>,
    sender: Seq<u32>,
    tries: spec_fn(Attempt<A>) -> bool,
    msg: OpaqueIpcMessage<A>,
    after: Map<Seq<u32>, Seq<OpaqueIpcMessage<A>>>,
)
    requires
        kept_by_sender(queues),
        recv_expected(
            queues,
            sender,
            opaque_polls(tries),
            Ok::<OpaqueIpcMessage<A>, DesyncErrorView>(msg),
            after,
        ),
    ensures
        sender_of(msg.data@) == Some(sender),
        kept_by_sender(after),
{
    let polls = choose|polls: Seq<Poll<OpaqueIpcMessage<A>>>|
        {
            &&& #[trigger] expected_recv(
                queues,
                sender,
                polls,
                Ok::<OpaqueIpcMessage<A>, DesyncErrorView>(msg),
                after,
            )
            &&& forall|i: int| 0 <= i < polls.len() ==> opaque_polls(tries)(#[trigger] polls[i])
        };
    if queue_of(queues, sender).len() > 0 {
        let queue = queue_of(queues, sender);
        assert(queue[0] == msg);
        assert forall|other: Seq<u32>, j: int|
            0 <= j < queue_of(after, other).len() implies sender_of(
            (#[trigger] queue_of(after, other)[j]).data@,
        ) == Some(other) by {
            if other == sender {
                assert(queue_of(after, other)[j] == queue[j + 1]);
            } else {
                assert(queue_of(after, other) == queue_of(queues, other));
            }
        }
    } else {
        let rest = polls.drop_last();
        assert forall|i: int| 0 <= i < rest.len() implies opaque_polls(tries)(
            #[trigger] rest[i],
        ) by {
            assert(rest[i] == polls[i]);
        }
        lemma_stash_in_order(queues, rest, tries);
        assert(opaque_polls(tries)(polls[polls.len() - 1]));
    }
}

/// One result that was replayed is logged as the event that it follows.
proof fn lemma_event_repeated<R, A>(
    tries: spec_fn(R, Attempt<A>) -> bool,
    before: SetView<R, A>,
    event: IpcSelectEventView,
    result: IpcSelectionResult<A>,
    after: SetView<R, A>,
)
    requires
        set_in_order(before),
        event_step(tries, before, event, EventOutcome::Replayed(result), after),
    ensures
        event_of(result) == Some(event),
        set_in_order(after),
{
    match event {
        IpcSelectEventView::MessageReceived(index, sender) => {
            let w = choose|w: Waited<A>|
                {
                    &&& #[trigger] message_step(tries, before, index as int, sender, w, after)
                    &&& EventOutcome::Replayed(result) == waited_event(index, w)
                };
            let i = index as int;
            let on = |a: Attempt<A>| tries(before.receivers[i].opaque_receiver, a);
            let msg = w->Found_0;
            lemma_wait_in_order(before.queues[i], sender, on, msg, after.queues[i]);
            assert forall|j: int| 0 <= j < after.queues.len() implies kept_by_sender(
                #[trigger] after.queues[j],
            ) by {
                if j != i {
                    assert(after.queues[j] == before.queues[j]);
                }
            }
        },
        IpcSelectEventView::ChannelClosed(index) => {},
    }
}

/// Results that were replayed are logged as the events that they follow.
proof fn lemma_events_repeated<R, A>(
    tries: spec_fn(R, Attempt<A>) -> bool,
    before: SetView<R, A>,
    events: Seq<IpcSelectEventView>,
    results: Seq<IpcSelectionResult<A>>,
    after: SetView<R, A>,
)
    requires
        set_in_order(before),
        events_replayed(tries, before, events, results, after),
    ensures
        readable(results),
        events_of(results) == events,
        set_in_order(after),
    decreases events.len(),
{
    if events.len() > 0 {
        let mid = choose|mid: SetView<R, A>|
            {
                &&& events_replayed(tries, before, events.drop_last(), results.drop_last(), mid)
                &&& #[trigger] event_step(
                    tries,
                    mid,
                    events.last(),
                    EventOutcome::Replayed(results.last()),
                    after,
                )
            };
        let some = results.drop_last();
        lemma_events_repeated(tries, before, events.drop_last(), some, mid);
        lemma_event_repeated(tries, mid, events.last(), results.last(), after);
        assert forall|i: int| 0 <= i < results.len() implies event_of(#[trigger] results[i]) == Some(
            events[i],
        ) by {
            if i < some.len() {
                assert(some[i] == results[i]);
                assert(event_of(some[i]) is Some);
                assert(events_of(some)[i] == events.drop_last()[i]);
            }
        }
    }
    assert(events_of(results) =~= events);
}

/// A select that follows its log repeats the record: it gives as many results as were recorded, each
/// with the recorded index, and with the recorded sender or the recorded end of a channel. Recorded
/// again, it would be logged as the entry that it followed.
pub proof fn law_replayed_selection_repeats_record<R, A, E>(
    set: IpcReceiverSet<R, A>,
    selects: spec_fn(Result<Vec<IpcSelectionResult<A>>, E>) -> bool,
    tries: spec_fn(R, Attempt<A>) -> bool,
    thread: ThreadView,
    results: Vec<IpcSelectionResult<A>>,
    thread_after: ThreadView,
    after: SetView<R, A>,
)
    requires
        set.mode == RRMode::Replay,
        set_in_order(set@),
        ipc_select_relation(
            set,
            selects,
            tries,
            thread,
            IpcSelecting::<A, E>::Selected(Ok(results)),
            thread_after,
            after,
        ),
    ensures
        thread.log.remaining.len() > 0,
        thread.log.remaining[0].event == (TivoEventView::IpcSelect {
            select_events: events_of(results@),
        }),
        readable(results@),
        set_in_order(after),
{
    match thread.log.remaining[0].event {
        TivoEventView::IpcSelect { select_events } => {
            lemma_events_repeated(tries, set@, select_events, results@, after);
        },
        _ => {},
    }
}

/// The addition of a receiver to a set whose messages are kept for their senders leaves it so.
pub proof fn law_add_keeps_set_in_order<R, A, E>(
    before: IpcReceiverSet<R, A>,
    receiver: OpaqueIpcReceiver<R>,
    adds: spec_fn(R, Result<u64, E>) -> bool,
    thread: ThreadView,
    r: Adding<R, E>,
    thread_after: ThreadView,
    after: IpcReceiverSet<R, A>,
)
    requires
        set_in_order(before@),
        add_relation(before, receiver, adds, thread, r, thread_after, after),
    ensures
        set_in_order(after@),
{
    assert forall|i: int| 0 <= i < after@.queues.len() implies kept_by_sender(
        #[trigger] after@.queues[i],
    ) by {
        if i < before@.queues.len() {
            assert(after@.queues[i] == before@.queues[i]);
        }
    }
}

/// The wait replays `event` with `result`, on the receiver at its index.
pub open spec fn replays_event<A>(
    event: IpcSelectEventView,
    result: IpcSelectionResult<A>,
    wait: Wait<u64, DetThreadId, OpaqueIpcMessage<A>>,
) -> bool {
    match event {
        IpcSelectEventView::MessageReceived(index, sender) => {
            &&& wait.channel == index
            &&& wait.expected == Some(sender)
            &&& wait.r matches Some(msg)
            &&& result == IpcSelectionResult::MessageReceived(index, msg)
        },
        IpcSelectEventView::ChannelClosed(index) => {
            &&& wait.channel == index
            &&& wait.expected is None
            &&& result == IpcSelectionResult::<A>::ChannelClosed(index)
        },
    }
}

/// What the set keeps is what is left after the run.
pub open spec fn keeps<R, A>(
    run: Seq<Wait<u64, DetThreadId, OpaqueIpcMessage<A>>>,
    set: SetView<R, A>,
) -> bool {
    &&& set.queues.len() == set.receivers.len()
    &&& forall|index: u64| #[trigger]
        kept(run, index) == if index < set.queues.len() {
            set.queues[index as int]
        } else {
            Map::<Seq<u32>, Seq<OpaqueIpcMessage<A>>>::empty()
        }
}

/// One more replayed result is one more wait.
proof fn lemma_event_is_wait<R, A>(
    tries: spec_fn(R, Attempt<A>) -> bool,
    run: Seq<Wait<u64, DetThreadId, OpaqueIpcMessage<A>>>,
    before: SetView<R, A>,
    event: IpcSelectEventView,
    result: IpcSelectionResult<A>,
    after: SetView<R, A>,
) -> (wait: Wait<u64, DetThreadId, OpaqueIpcMessage<A>>)
    requires
        is_run(run),
        keeps(run, before),
        event_step(tries, before, event, EventOutcome::Replayed(result), after),
    ensures
        is_run(run.push(wait)),
        keeps(run.push(wait), after),
        replays_event(event, result, wait),
{
    let wait = match event {
        IpcSelectEventView::MessageReceived(index, sender) => {
            let w = choose|w: Waited<A>|
                {
                    &&& #[trigger] message_step(tries, before, index as int, sender, w, after)
                    &&& EventOutcome::Replayed(result) == waited_event(index, w)
                };
            let i = index as int;
            let on = |a: Attempt<A>| tries(before.receivers[i].opaque_receiver, a);
            let msg = w->Found_0;
            let r = Ok::<OpaqueIpcMessage<A>, DesyncErrorView>(msg);
            assert(recv_expected(
                before.queues[i],
                sender,
                opaque_polls(on),
                r,
                after.queues[i],
            ));
            let polls = choose|polls: Seq<Poll<OpaqueIpcMessage<A>>>|
                {
                    &&& #[trigger] expected_recv(
                        before.queues[i],
                        sender,
                        polls,
                        r,
                        after.queues[i],
                    )
                    &&& forall|j: int|
                        0 <= j < polls.len() ==> opaque_polls(on)(#[trigger] polls[j])
                };
            law_expected_receive_is_a_wait(
                index,
                before.queues[i],
                sender,
                polls,
                r,
                after.queues[i],
            )
        },
        IpcSelectEventView::ChannelClosed(index) => {
            let queues = before.queues[index as int];
            law_idle_operation_is_a_wait(index, queues, queues)
        },
    };
    let longer = run.push(wait);
    assert(longer.drop_last() =~= run);
    assert(kept(run, wait.channel) == wait.before);
    assert forall|j: int| 0 <= j < longer.len() implies is_wait(#[trigger] longer[j]) by {
        if j < run.len() {
            assert(longer[j] == run[j]);
        }
    }
    assert forall|index: u64| #[trigger]
        kept(longer, index) == if index < after.queues.len() {
            after.queues[index as int]
        } else {
            Map::<Seq<u32>, Seq<OpaqueIpcMessage<A>>>::empty()
        } by {
        if index != wait.channel {
            assert(kept(longer, index) == kept(run, index));
            if index < before.queues.len() {
                assert(after.queues[index as int] == before.queues[index as int]);
            }
        }
    }
    wait
}

/// The results of a replayed select are waits that go on where the last select on this set ended: for
/// a message from the logged sender at the logged index, or for nobody where a channel is closed. So
/// what holds of runs of waits holds of all selects on a set, with the receivers told apart by their
/// indices: no message is lost, and where each sender sends the same messages again, the messages of
/// the record come again.
pub proof fn law_replayed_selection_is_a_run<R, A>(
    tries: spec_fn(R, Attempt<A>) -> bool,
    run: Seq<Wait<u64, DetThreadId, OpaqueIpcMessage<A>>>,
    before: SetView<R, A>,
    events: Seq<IpcSelectEventView>,
    results: Seq<IpcSelectionResult<A>>,
    after: SetView<R, A>,
) -> (longer: Seq<Wait<u64, DetThreadId, OpaqueIpcMessage<A>>>)
    requires
        is_run(run),
        keeps(run, before),
        events_replayed(tries, before, events, results, after),
    ensures
        longer.len() == run.len() + events.len(),
        longer.take(run.len() as int) == run,
        is_run(longer),
        keeps(longer, after),
        forall|j: int|
            0 <= j < events.len() ==> replays_event(
                events[j],
                #[trigger] results[j],
                longer[run.len() + j],
            ),
    decreases events.len(),
{
    if events.len() == 0 {
        assert(run.take(run.len() as int) =~= run);
        run
    } else {
        let mid = choose|mid: SetView<R, A>|
            {
                &&& events_replayed(tries, before, events.drop_last(), results.drop_last(), mid)
                &&& #[trigger] event_step(
                    tries,
                    mid,
                    events.last(),
                    EventOutcome::Replayed(results.last()),
                    after,
                )
            };
        let most = law_replayed_selection_is_a_run(
            tries,
            run,
            before,
            events.drop_last(),
            results.drop_last(),
            mid,
        );
        let wait = lemma_event_is_wait(
            tries,
            most,
            mid,
            events.last(),
            results.last(),
            after,
        );
        let longer = most.push(wait);
        assert(longer.take(run.len() as int) =~= most.take(run.len() as int));
        assert forall|j: int| 0 <= j < events.len() implies replays_event(
            events[j],
            #[trigger] results[j],
            longer[run.len() + j],
        ) by {
            if j < events.len() - 1 {
                assert(results.drop_last()[j] == results[j]);
            }
        }
        longer
    }
}

/// Adding a receiver goes on with the run: nothing is kept for it yet.
pub proof fn law_add_goes_on_with_run<R, A, E>(
    run: Seq<Wait<u64, DetThreadId, OpaqueIpcMessage<A>>>,
    before: IpcReceiverSet<R, A>,
    receiver: OpaqueIpcReceiver<R>,
    adds: spec_fn(R, Result<u64, E>) -> bool,
    thread: ThreadView,
    r: Adding<R, E>,
    thread_after: ThreadView,
    after: IpcReceiverSet<R, A>,
)
    requires
        keeps(run, before@),
        add_relation(before, receiver, adds, thread, r, thread_after, after),
    ensures
        keeps(run, after@),
{
    assert forall|index: u64| #[trigger]
        kept(run, index) == if index < after@.queues.len() {
            after@.queues[index as int]
        } else {
            Map::<Seq<u32>, Seq<OpaqueIpcMessage<A>>>::empty()
        } by {
        if index < before@.queues.len() {
            assert(after@.queues[index as int] == before@.queues[index as int]);
        }
    }
}

/// A replay that is given up loses nothing: what was replayed before comes first, then every message
/// that is kept, and last what came instead of the logged result.
pub proof fn law_given_up_select_loses_nothing<A>(
    queues: Seq<Map<Seq<u32>, Seq<OpaqueIpcMessage<A>>>>,
    replayed: Seq<IpcSelectionResult<A>>,
    last: Option<IpcSelectionResult<A>>,
    entries: Option<Vec<IpcSelectionResult<A>>>,
) -> (buffered: Seq<IpcSelectionResult<A>>)
    requires
        given_up(queues, replayed, last, entries),
    ensures
        all_buffered(queues, buffered),
        entries is None ==> replayed.len() == 0 && buffered.len() == 0 && last is None,
        entries matches Some(entries) ==> {
            &&& entries@.len() == replayed.len() + buffered.len() + if last is Some {
                1int
            } else {
                0
            }
            &&& forall|i: int| 0 <= i < replayed.len() ==> #[trigger] entries@[i] == replayed[i]
            &&& forall|i: int|
                0 <= i < buffered.len() ==> entries@[replayed.len() + i] == #[trigger] buffered[i]
            &&& last matches Some(result) ==> entries@.last() == result
        },
{
    choose|buffered: Seq<IpcSelectionResult<A>>| #[trigger]
        all_buffered(queues, buffered) && match entries {
            Some(entries) => entries@.len() > 0 && entries@ == with_last(replayed + buffered, last),
            None => replayed.len() == 0 && buffered.len() == 0 && last is None,
        }
}

} // verus!
