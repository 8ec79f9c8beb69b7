//! What becomes of selects and additions of a set of receivers.

use vstd::prelude::*;
use crate::desync::DesyncMode;
use crate::detthread::ThreadView;
use crate::ipc::OpaqueIpcReceiver;
use crate::ipc_message::{sender_in, Attempt, IpcSelectionResult, OpaqueIpcMessage};
use crate::ipc_set::{
    add_relation, add_step, all_buffered, as_results, calls_select, dummies, followed, given_up,
    ipc_select_relation, ipc_select_step, joined_results, moved_receivers, real_ends, recorded_add,
    recorded_selection, rr_select_takes, select_accounted, select_takes, settled_add,
    settled_ipc_select, slots_of, with_last, AddStep, Adding, IpcReceiverSet, IpcSelectStep,
    IpcSelecting, MovedReceiver,
};
use crate::mode::RRMode;
use crate::recordlog::{entry_of, TivoEventView};
use crate::set_flow::{
    arrived, came_instead, handed, on_receivers, set_accounted, set_balanced, Arrivals,
};
use crate::thread_map::{all_empty, dequeue, drained, queue_of, taken, took_some};
use crate::wire::all_calls_at;

verus! {

/// All attempts that a replayed select makes on the receivers are accounted for: for each receiver and
/// each sender, what the attempts gave, in order and none left out, behind what was kept before, is
/// what the results hold for them followed by what is kept afterwards.
pub proof fn law_every_attempt_is_accounted<R, A, E, F>(
    try_recv: F,
    before: IpcReceiverSet<R, A>,
    thread: ThreadView,
    results: Vec<IpcSelectionResult<A>>,
    thread_after: ThreadView,
    after: IpcReceiverSet<R, A>,
) -> (seen: Arrivals<R, A>)
    requires
        calls_select(
            try_recv,
            before,
            thread,
            IpcSelectStep::<R, A, E>::Done(Ok(results)),
            thread_after,
            after,
        ),
        followed(before, thread) is Some,
    ensures
        all_calls_at(try_recv, seen),
        on_receivers(seen, real_ends(before@.receivers)),
        after@.queues.len() == before@.queues.len(),
        forall|at: int, from: Seq<u32>|
            0 <= at < before@.queues.len() ==> #[trigger] handed(
                slots_of(followed(before, thread)->0),
                results@,
                at,
                from,
            ) + queue_of(after@.queues[at], from) == queue_of(before@.queues[at], from) + arrived(
                sender_in(),
                seen,
                at,
                from,
            ),
{
    let r = IpcSelectStep::<R, A, E>::Done(Ok(results));
    let (seen, outcome, mid, set) = choose|
        seen: Arrivals<R, A>,
        outcome: IpcSelecting<A, E>,
        mid: ThreadView,
        set: IpcReceiverSet<R, A>,
    |
        {
            &&& all_calls_at(try_recv, seen)
            &&& #[trigger] select_accounted(
                before,
                thread,
                seen,
                outcome,
                mid,
                set,
                r,
                thread_after,
                after,
            )
        };
    assert(rr_select_takes(before, thread, seen, outcome, set@));
    assert(settled_ipc_select(outcome, mid, set, r, thread_after, after));
    let events = followed(before, thread)->0;
    assert(select_takes(before@, seen, events, outcome, set@));
    assert(outcome == IpcSelecting::<A, E>::Selected(Ok(results)));
    assert(after == set);
    let slots = slots_of(events);
    assert forall|at: int, from: Seq<u32>| 0 <= at < before@.queues.len() implies #[trigger] handed(
        slots,
        results@,
        at,
        from,
    ) + queue_of(after@.queues[at], from) == queue_of(before@.queues[at], from) + arrived(
        sender_in(),
        seen,
        at,
        from,
    ) by {
        assert(set_balanced(
            sender_in(),
            before@.queues,
            seen,
            slots,
            results@,
            None,
            after@.queues,
            at,
            from,
        ));
        let all = handed(slots, results@, at, from) + queue_of(after@.queues[at], from);
        assert(all + Seq::<OpaqueIpcMessage<A>>::empty() =~= all);
    }
    seen
}

/// What a select that is given up hands out: the results that were replayed before, the messages that
/// are kept then, and what came instead of the next result.
pub struct GivenUp<R, A> {
    pub seen: Arrivals<R, A>,
    pub replayed: Seq<IpcSelectionResult<A>>,
    pub kept: Seq<Map<Seq<u32>, Seq<OpaqueIpcMessage<A>>>>,
    pub buffered: Seq<IpcSelectionResult<A>>,
    pub last: Option<IpcSelectionResult<A>>,
}

/// Also a replayed select that is given up accounts for all attempts: for each receiver and each sender,
/// what the attempts gave, behind what was kept before, is what was replayed, then what is kept, and
/// then what came instead. All of that is handed out in this order, and nothing is kept any more.
pub proof fn law_given_up_select_accounts_for_all<R, A, E, F>(
    try_recv: F,
    before: IpcReceiverSet<R, A>,
    thread: ThreadView,
    r: IpcSelectStep<R, A, E>,
    thread_after: ThreadView,
    after: IpcReceiverSet<R, A>,
) -> (up: GivenUp<R, A>)
    requires
        calls_select(try_recv, before, thread, r, thread_after, after),
        followed(before, thread) is Some,
        r is Desync,
    ensures
        all_calls_at(try_recv, up.seen),
        up.replayed.len() <= followed(before, thread)->0.len(),
        up.kept.len() == before@.queues.len(),
        forall|at: int, from: Seq<u32>|
            0 <= at < before@.queues.len() ==> (#[trigger] handed(
                slots_of(followed(before, thread)->0.take(up.replayed.len() as int)),
                up.replayed,
                at,
                from,
            ) + queue_of(up.kept[at], from)) + came_instead(sender_in(), up.last, at, from)
                == queue_of(before@.queues[at], from) + arrived(sender_in(), up.seen, at, from),
        all_buffered(up.kept, up.buffered),
        match r->entries {
            Some(entries) => entries@ == with_last(up.replayed + up.buffered, up.last),
            None => up.replayed.len() == 0 && up.buffered.len() == 0 && up.last is None,
        },
        forall|i: int| 0 <= i < after@.queues.len() ==> all_empty(#[trigger] after@.queues[i]),
{
    let (seen, outcome, mid, set) = choose|
        seen: Arrivals<R, A>,
        outcome: IpcSelecting<A, E>,
        mid: ThreadView,
        set: IpcReceiverSet<R, A>,
    |
        {
            &&& all_calls_at(try_recv, seen)
            &&& #[trigger] select_accounted(
                before,
                thread,
                seen,
                outcome,
                mid,
                set,
                r,
                thread_after,
                after,
            )
        };
    let events = followed(before, thread)->0;
    assert(select_takes(before@, seen, events, outcome, set@));
    assert(settled_ipc_select(outcome, mid, set, r, thread_after, after));
    let (replayed, last) = match outcome {
        IpcSelecting::Desync(_, results, last) => (results@, last),
        _ => (Seq::empty(), None),
    };
    let entries = r->entries;
    assert(given_up(set@.queues, replayed, last, entries));
    let buffered = choose|buffered: Seq<IpcSelectionResult<A>>| #[trigger]
        all_buffered(set@.queues, buffered) && match entries {
            Some(entries) => entries@.len() > 0 && entries@ == with_last(replayed + buffered, last),
            None => replayed.len() == 0 && buffered.len() == 0 && last is None,
        };
    let slots = slots_of(events.take(replayed.len() as int));
    assert(set_accounted(sender_in(), before@.queues, seen, slots, replayed, last, set@.queues));
    assert forall|at: int, from: Seq<u32>| 0 <= at < before@.queues.len() implies (
    #[trigger] handed(slots, replayed, at, from) + queue_of(set@.queues[at], from)) + came_instead(
        sender_in(),
        last,
        at,
        from,
    ) == queue_of(before@.queues[at], from) + arrived(sender_in(), seen, at, from) by {
        assert(set_balanced(
            sender_in(),
            before@.queues,
            seen,
            slots,
            replayed,
            last,
            set@.queues,
            at,
            from,
        ));
    }
    GivenUp { seen, replayed, kept: set@.queues, buffered, last }
}

/// A select makes no attempts on the receivers unless it follows the log.
pub proof fn law_no_attempt_without_log<R, A, E, F>(
    try_recv: F,
    before: IpcReceiverSet<R, A>,
    thread: ThreadView,
    r: IpcSelectStep<R, A, E>,
    thread_after: ThreadView,
    after: IpcReceiverSet<R, A>,
)
    requires
        calls_select(try_recv, before, thread, r, thread_after, after),
        thread.desynced || before.mode != RRMode::Replay || thread.log.remaining.len() == 0,
    ensures
        all_calls_at(try_recv, Seq::<(int, R, Attempt<A>)>::empty()),
{
    let (seen, outcome, mid, set) = choose|
        seen: Arrivals<R, A>,
        outcome: IpcSelecting<A, E>,
        mid: ThreadView,
        set: IpcReceiverSet<R, A>,
    |
        {
            &&& all_calls_at(try_recv, seen)
            &&& #[trigger] select_accounted(
                before,
                thread,
                seen,
                outcome,
                mid,
                set,
                r,
                thread_after,
                after,
            )
        };
    assert(rr_select_takes(before, thread, seen, outcome, set@));
    assert(seen =~= Seq::<(int, R, Attempt<A>)>::empty());
}

/// How far a select of a set comes. It gives what the real set gave while nothing is replayed. It sleeps
/// only at the end of the log of a replay, and always there. It gives up the replay, or the run, only on
/// a desynchronization, as the thread's mode demands.
pub proof fn law_set_select_gives_the_real_one<R, A, E>(
    before: IpcReceiverSet<R, A>,
    selects: spec_fn(Result<Vec<IpcSelectionResult<A>>, E>) -> bool,
    tries: spec_fn(R, Attempt<A>) -> bool,
    thread: ThreadView,
    r: IpcSelectStep<R, A, E>,
    thread_after: ThreadView,
    after: IpcReceiverSet<R, A>,
)
    requires
        ipc_select_step(before, selects, tries, thread, r, thread_after, after),
    ensures
        r is Sleep <==> before.mode == RRMode::Replay && !before.desynced && !thread.desynced
            && thread.log.remaining.len() == 0,
        !thread.desynced && before.mode == RRMode::NoRR ==> match r {
            IpcSelectStep::Done(v) => selects(v) && thread_after == thread,
            _ => false,
        },
        !thread.desynced && before.mode == RRMode::Record ==> match r {
            IpcSelectStep::Done(v) => selects(v),
            IpcSelectStep::Fatal(_) => thread_after.log.written == thread.log.written,
            _ => false,
        },
        r is Panic ==> thread.desync_mode == DesyncMode::Panic,
        r is Desync ==> thread.desync_mode == DesyncMode::KeepGoing && thread_after.desynced
            && after.desynced,
{
    let (outcome, mid, set) = choose|
        outcome: IpcSelecting<A, E>,
        mid: ThreadView,
        set: IpcReceiverSet<R, A>,
    |
        {
            &&& ipc_select_relation(before, selects, tries, thread, outcome, mid, set@)
            &&& set.same_set(before)
            &&& #[trigger] settled_ipc_select(outcome, mid, set, r, thread_after, after)
        };
    if !thread.desynced && before.mode == RRMode::Record {
        let selected = choose|selected: Result<Vec<IpcSelectionResult<A>>, E>|
            {
                &&& selects(selected)
                &&& #[trigger] recorded_selection(selected, thread, outcome, mid)
            };
        assert(recorded_selection(selected, thread, outcome, mid));
    }
}

/// How far the addition of a receiver comes. The real set decides and its index is logged while
/// recording, and it alone decides while nothing is replayed. A replay gives the next index, and only if
/// the log tells of the same receiver at the same index. Otherwise the receiver comes back.
pub proof fn law_addition_gives_the_real_index<R, A, E>(
    before: IpcReceiverSet<R, A>,
    receiver: OpaqueIpcReceiver<R>,
    adds: spec_fn(R, Result<u64, E>) -> bool,
    thread: ThreadView,
    r: AddStep<R, E>,
    thread_after: ThreadView,
    after: IpcReceiverSet<R, A>,
)
    requires
        add_step(before, receiver, adds, thread, r, thread_after, after),
    ensures
        r matches AddStep::Done(v) ==> {
            &&& before.mode != RRMode::Replay ==> adds(receiver.opaque_receiver, v)
            &&& before.mode == RRMode::Replay ==> {
                &&& v == Ok::<u64, E>(before.index)
                &&& after@.receivers == before@.receivers.push(receiver)
                &&& thread.log.remaining.len() > 0
                &&& thread.log.remaining[0].event == TivoEventView::IpcSelectAdd(before.index)
                &&& thread.log.remaining[0].chan_id == receiver.metadata@.id
                &&& thread.log.remaining[0].channel_variant == receiver.metadata@.channel_variant
            }
            &&& before.mode == RRMode::Record ==> thread_after.log.written == (match v {
                Ok(index) => thread.log.written.push(
                    entry_of(TivoEventView::IpcSelectAdd(index), receiver.metadata@),
                ),
                Err(_) => thread.log.written,
            })
        },
        r matches AddStep::Desync { to_move, receiver: back } ==> {
            &&& back == receiver.opaque_receiver
            &&& to_move@ == moved_receivers(before)
            &&& thread.desync_mode == DesyncMode::KeepGoing
            &&& thread_after.desynced
        },
        r is Panic ==> thread.desync_mode == DesyncMode::Panic || (before.mode == RRMode::Record
            && thread_after.log.written == thread.log.written),
        before.mode == RRMode::NoRR && !thread.desynced && !before.desynced ==> r is Done,
{
    let (outcome, mid, set) = choose|
        outcome: Adding<R, E>,
        mid: ThreadView,
        set: IpcReceiverSet<R, A>,
    |
        {
            &&& add_relation(before, receiver, adds, thread, outcome, mid, set)
            &&& #[trigger] settled_add(outcome, mid, set, r, thread_after, after)
        };
    if !thread.desynced && !before.desynced && before.mode == RRMode::Record {
        let added = choose|added: Result<u64, E>|
            {
                &&& adds(receiver.opaque_receiver, added)
                &&& #[trigger] recorded_add(added, receiver.metadata@, thread, outcome, mid)
            };
        assert(recorded_add(added, receiver.metadata@, thread, outcome, mid));
    }
}

/// One id is used up for every channel that is created in place of a closed one, and for no other:
/// however receivers are moved, those of two lists add up.
pub proof fn law_one_id_for_each_closed_receiver<R>(
    one: Seq<MovedReceiver<R>>,
    other: Seq<MovedReceiver<R>>,
    open: R,
)
    ensures
        dummies(one + other) == dummies(one) + dummies(other),
        dummies(seq![MovedReceiver::<R>::Dummy]) == 1,
        dummies(seq![MovedReceiver::Open(open)]) == 0,
        dummies(Seq::<MovedReceiver<R>>::empty()) == 0,
    decreases other.len(),
{
    assert(seq![MovedReceiver::<R>::Dummy].drop_last() =~= Seq::<MovedReceiver<R>>::empty());
    assert(seq![MovedReceiver::Open(open)].drop_last() =~= Seq::<MovedReceiver<R>>::empty());
    assert(dummies(Seq::<MovedReceiver<R>>::empty()) == 0);
    assert(dummies(seq![MovedReceiver::<R>::Dummy]) == 1);
    assert(dummies(seq![MovedReceiver::Open(open)]) == 0);
    if other.len() == 0 {
        assert(one + other =~= one);
    } else {
        law_one_id_for_each_closed_receiver(one, other.drop_last(), open);
        assert((one + other).drop_last() =~= one + other.drop_last());
        assert((one + other).last() == other.last());
    }
}

/// The messages among `msgs` that `from` tells to be those of `sender`, in this order.
pub open spec fn only_from<K, T>(msgs: Seq<T>, from: Seq<K>, sender: K) -> Seq<T>
    decreases msgs.len(),
{
    if msgs.len() == 0 {
        Seq::<T>::empty()
    } else {
        let earlier = only_from(msgs.drop_last(), from.drop_last(), sender);
        if from.last() == sender {
            earlier.push(msgs.last())
        } else {
            earlier
        }
    }
}

/// What is taken and what is left make up what was kept, sender by sender.
pub proof fn law_taken_messages_are_those_kept<K, T>(
    queues: Map<K, Seq<T>>,
    msgs: Seq<T>,
    after: Map<K, Seq<T>>,
) -> (from: Seq<K>)
    requires
        taken(queues, msgs, after),
    ensures
        from.len() == msgs.len(),
        forall|sender: K| #[trigger]
            queue_of(queues, sender) == only_from(msgs, from, sender) + queue_of(after, sender),
    decreases msgs.len(),
{
    if msgs.len() == 0 {
        assert forall|sender: K| #[trigger]
            queue_of(queues, sender) == only_from(msgs, Seq::<K>::empty(), sender) + queue_of(
                after,
                sender,
            ) by {
            assert(Seq::<T>::empty() + queue_of(after, sender) =~= queue_of(queues, sender));
        }
        Seq::<K>::empty()
    } else {
        let mid = choose|mid: Map<K, Seq<T>>|
            {
                &&& taken(queues, msgs.drop_last(), mid)
                &&& #[trigger] took_some(mid, msgs.last(), after)
            };
        let earlier = law_taken_messages_are_those_kept(queues, msgs.drop_last(), mid);
        let last = choose|sender: K|
            {
                &&& (#[trigger] queue_of(mid, sender)).len() > 0
                &&& msgs.last() == queue_of(mid, sender)[0]
                &&& after == dequeue(mid, sender)
            };
        let from = earlier.push(last);
        assert(from.drop_last() =~= earlier);
        assert forall|sender: K| #[trigger]
            queue_of(queues, sender) == only_from(msgs, from, sender) + queue_of(after, sender) by {
            let before = only_from(msgs.drop_last(), earlier, sender);
            assert(queue_of(queues, sender) == before + queue_of(mid, sender));
            if sender == last {
                assert(queue_of(mid, sender) =~= seq![msgs.last()] + queue_of(after, sender));
                assert(before + (seq![msgs.last()] + queue_of(after, sender)) =~= before.push(
                    msgs.last(),
                ) + queue_of(after, sender));
            } else {
                assert(queue_of(after, sender) == queue_of(mid, sender));
            }
        }
        from
    }
}

/// What a receiver gives up when all its messages are taken are these messages, none left out, those of
/// each sender in the order in which they came.
pub proof fn law_drained_messages_are_all<K, T>(queues: Map<K, Seq<T>>, msgs: Seq<T>) -> (from: Seq<K>)
    requires
        drained(queues, msgs),
    ensures
        from.len() == msgs.len(),
        forall|sender: K| #[trigger] queue_of(queues, sender) == only_from(msgs, from, sender),
{
    let after = choose|after: Map<K, Seq<T>>| #[trigger]
        taken(queues, msgs, after) && all_empty(after);
    let from = law_taken_messages_are_those_kept(queues, msgs, after);
    assert forall|sender: K| #[trigger]
        queue_of(queues, sender) == only_from(msgs, from, sender) by {
        assert(queue_of(after, sender) =~= Seq::<T>::empty());
        assert(only_from(msgs, from, sender) + Seq::<T>::empty() =~= only_from(msgs, from, sender));
    }
    from
}

/// The messages among the results that came from the receiver at `index`, in this order.
pub open spec fn results_at<A>(results: Seq<IpcSelectionResult<A>>, index: int) -> Seq<
    OpaqueIpcMessage<A>,
>
    decreases results.len(),
{
    if results.len() == 0 {
        Seq::<OpaqueIpcMessage<A>>::empty()
    } else {
        let earlier = results_at(results.drop_last(), index);
        match results.last() {
            IpcSelectionResult::MessageReceived(i, msg) => if i == index {
                earlier.push(msg)
            } else {
                earlier
            },
            IpcSelectionResult::ChannelClosed(_) => earlier,
        }
    }
}

proof fn lemma_results_in_parts<A>(
    one: Seq<IpcSelectionResult<A>>,
    other: Seq<IpcSelectionResult<A>>,
    index: int,
)
    ensures
        results_at(one + other, index) == results_at(one, index) + results_at(other, index),
    decreases other.len(),
{
    let first = results_at(one, index);
    if other.len() == 0 {
        assert(one + other =~= one);
        assert(first + Seq::<OpaqueIpcMessage<A>>::empty() =~= first);
    } else {
        lemma_results_in_parts(one, other.drop_last(), index);
        assert((one + other).drop_last() =~= one + other.drop_last());
        let second = results_at(other.drop_last(), index);
        if let IpcSelectionResult::MessageReceived(_, msg) = other.last() {
            assert((first + second).push(msg) =~= first + second.push(msg));
        }
    }
}

proof fn lemma_results_of_one<A>(index: int, msgs: Seq<OpaqueIpcMessage<A>>, at: int)
    requires
        0 <= index <= u64::MAX,
    ensures
        results_at(as_results(index, msgs), at) == (if at == index {
            msgs
        } else {
            Seq::<OpaqueIpcMessage<A>>::empty()
        }),
    decreases msgs.len(),
{
    if msgs.len() == 0 {
        assert(results_at(as_results(index, msgs), at) =~= Seq::<OpaqueIpcMessage<A>>::empty());
        assert(msgs =~= Seq::<OpaqueIpcMessage<A>>::empty());
    } else {
        lemma_results_of_one(index, msgs.drop_last(), at);
        assert(as_results(index, msgs).drop_last() =~= as_results(index, msgs.drop_last()));
        assert(msgs.drop_last().push(msgs.last()) =~= msgs);
    }
}

/// The messages that are handed out when a replay is given up stand under the indices of their
/// receivers: for each receiver, they are those that were kept for it.
pub proof fn law_joined_results_keep_their_indices<A>(
    parts: Seq<Seq<OpaqueIpcMessage<A>>>,
    index: int,
)
    requires
        parts.len() <= u64::MAX,
    ensures
        results_at(joined_results(parts), index) == (if 0 <= index < parts.len() {
            parts[index]
        } else {
            Seq::<OpaqueIpcMessage<A>>::empty()
        }),
    decreases parts.len(),
{
    let none = Seq::<OpaqueIpcMessage<A>>::empty();
    if parts.len() > 0 {
        let last = parts.len() - 1;
        law_joined_results_keep_their_indices(parts.drop_last(), index);
        lemma_results_of_one(last, parts.last(), index);
        lemma_results_in_parts(
            joined_results(parts.drop_last()),
            as_results(last, parts.last()),
            index,
        );
        if index == last {
            assert(none + parts.last() =~= parts.last());
        } else if 0 <= index < last {
            assert(parts.drop_last()[index] == parts[index]);
            assert(parts[index] + none =~= parts[index]);
        } else {
            assert(none + none =~= none);
        }
    }
}

/// All messages that are kept are handed out, and no other: for each receiver and each sender, they are
/// in the order in which they came.
pub proof fn law_buffered_messages_are_all<A>(
    queues: Seq<Map<Seq<u32>, Seq<OpaqueIpcMessage<A>>>>,
    entries: Seq<IpcSelectionResult<A>>,
    index: int,
) -> (from: Seq<Seq<u32>>)
    requires
        all_buffered(queues, entries),
        queues.len() <= u64::MAX,
        0 <= index < queues.len(),
    ensures
        from.len() == results_at(entries, index).len(),
        forall|sender: Seq<u32>| #[trigger]
            queue_of(queues[index], sender) == only_from(results_at(entries, index), from, sender),
{
    let parts = choose|parts: Seq<Seq<OpaqueIpcMessage<A>>>|
        {
            &&& parts.len() == queues.len()
            &&& forall|i: int|
                0 <= i < queues.len() ==> drained(#[trigger] queues[i], parts[i])
            &&& entries == #[trigger] joined_results(parts)
        };
    law_joined_results_keep_their_indices(parts, index);
    assert(drained(queues[index], parts[index]));
    law_drained_messages_are_all(queues[index], parts[index])
}

} // verus!
