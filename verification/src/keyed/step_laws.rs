//! How far operations with a keyed log come, and what becomes of all that comes off their channels.

use vstd::prelude::*;
use crate::desync::DesyncMode;
use crate::error::RecvErrorDef;
use crate::ipc_message::{Attempt, IpcSelectionResult, OpaqueIpcMessage};
use crate::keyed::channel::Receiver;
use crate::keyed::flow::{
    bare, handed_on, keyed_desync, keyed_recv, keyed_recv_step, keyed_settled, logged_recv, tag_of,
    tagged_entry, KeyedStep, KeyedWire, Message, RecordReplayRecv, Tag,
};
use crate::keyed::ipc::OpaqueIpcReceiver;
use crate::keyed::ipc_set::{
    calls_select, events_of, followed, keyed_add, keyed_add_step, keyed_set_select,
    keyed_set_select_step, moved_receivers, path_of, real_ends, recorded_add, recorded_selection,
    select_accounted, select_tag, select_takes, set_select_takes, settled_add, settled_set_select,
    slots_of, AddStep, Adding, IpcReceiverSet, IpcSelectStep, IpcSelecting,
};
use crate::keyed::record_replay::{
    lookup, ChannelIdView, DesyncError, DesyncErrorView, FlavorMarker, IndicesView, LogEntryView,
    RecordedView,
};
use crate::keyed::select::{
    keyed_completion, keyed_completion_takes, keyed_ready, keyed_ready_step, keyed_select,
    keyed_select_step, keyed_settled_ready, keyed_settled_select, next_logged, ready_tag,
    select_event, selected_message, SelectedMessage, SelectedOperation,
};
use crate::keyed::send::{
    keyed_send, keyed_send_step, keyed_settled_send, passed, sent_as, KeyedSendStep, KeyedSender,
    KeyedSent,
};
use crate::keyed::thread::{ContextView, MaybeId};
use crate::mode::RRMode;
use crate::set_flow::{arrived, handed, on_receivers, set_balanced, Arrivals};
use crate::thread_map::{all_empty, queue_of};
use crate::wire::all_calls_at;

verus! {

/// An entry is found exactly where the log holds one for the event of the thread, and it is that of the
/// channel that was asked for.
pub proof fn law_lookup_finds_the_entry(
    indices: IndicesView,
    thread: Seq<u32>,
    event_id: u32,
    flavor: FlavorMarker,
    id: ChannelIdView,
)
    ensures
        ({
            let found = lookup(indices, thread, event_id, Some(flavor), Some(id));
            &&& found is Ok <==> {
                &&& indices.contains_key((thread, event_id))
                &&& indices[(thread, event_id)].flavor == flavor
                &&& indices[(thread, event_id)].id == id
            }
            &&& found matches Ok(logged) ==> logged == indices[(thread, event_id)]
            &&& found matches Err(e) ==> (e is NoEntryInLog <==> !indices.contains_key(
                (thread, event_id),
            ))
        }),
        lookup(indices, thread, event_id, None, None) is Ok <==> indices.contains_key(
            (thread, event_id),
        ),
        lookup(indices, thread, event_id, None, None) matches Ok(logged) ==> logged
            == indices[(thread, event_id)],
{
}

/// The message was handed to the channel under the id `sender`, and the channel gave `gave`.
pub open spec fn reached_channel<T, E>(
    sends: spec_fn(Message<T>, Result<(), E>) -> bool,
    sender: Option<Seq<u32>>,
    msg: T,
    gave: Result<(), E>,
) -> bool {
    exists|id: MaybeId| id@ == sender && #[trigger] sends((id, msg), gave)
}

proof fn lemma_passed<T, E>(
    sends: spec_fn(Message<T>, Result<(), E>) -> bool,
    id: MaybeId,
    sender: Option<Seq<u32>>,
    msg: T,
    gave: Result<(), E>,
)
    requires
        passed(sends, id, sender, msg, gave),
    ensures
        reached_channel(sends, sender, msg, gave),
{
    assert(id@ == sender && sends((id, msg), gave));
}

/// A send that is done has handed its message to the channel, under the id that is forwarded or that of
/// the thread itself, and tells what the channel gave. It sleeps with its message only while replaying,
/// and gives up only if it has to on a desynchronization. Its event is logged while recording.
pub proof fn law_keyed_send_reaches_its_channel<T, E>(
    kind: KeyedSender,
    mode: RRMode,
    tag: Tag,
    indices: IndicesView,
    sends: spec_fn(Message<T>, Result<(), E>) -> bool,
    thread: ContextView,
    msg: T,
    r: KeyedSendStep<T, E>,
    entry: Option<LogEntryView>,
    thread_after: ContextView,
)
    requires
        keyed_send_step(kind, mode, tag, indices, sends, thread, msg, r, entry, thread_after),
    ensures
        match r {
            KeyedSendStep::Done(gave) => reached_channel(
                sends,
                if mode == RRMode::NoRR && !thread.desynced {
                    thread.det_id
                } else {
                    thread.forward_id()
                },
                msg,
                gave,
            ),
            KeyedSendStep::Sleep(back) => back == msg && mode == RRMode::Replay && !thread.desynced,
            KeyedSendStep::Panic(_) => thread.desync_mode == DesyncMode::Panic,
        },
        mode == RRMode::NoRR && !thread.desynced ==> r is Done && thread_after == thread,
        entry == (if mode == RRMode::Record && !thread.desynced {
            Some(tagged_entry(thread, kind.event(), tag))
        } else {
            None
        }),
        mode == RRMode::Record && !thread.desynced ==> r is Done,
{
    let (outcome, mid) = choose|outcome: KeyedSent<T, E>, mid: ContextView|
        {
            &&& keyed_send(kind, mode, tag, indices, sends, thread, msg, outcome, entry, mid)
            &&& #[trigger] keyed_settled_send(outcome, sends, mid, r, thread_after)
        };
    if let KeyedSendStep::Done(gave) = r {
        if let KeyedSent::Desync(_, back) = outcome {
            let (id, result) = choose|id: MaybeId, result: Result<(), E>| #[trigger]
                passed(sends, id, mid.forward_id(), back, result) && r == KeyedSendStep::<
                    T,
                    E,
                >::Done(result);
            lemma_passed(sends, id, thread.forward_id(), msg, gave);
        } else {
            let sender = if mode == RRMode::NoRR {
                thread.det_id
            } else {
                thread.forward_id()
            };
            assert(sent_as(sends, sender, msg, outcome));
            let (id, result) = choose|id: MaybeId, result: Result<(), E>| #[trigger]
                passed(sends, id, sender, msg, result) && outcome == KeyedSent::<T, E>::Sent(
                    result,
                );
            lemma_passed(sends, id, sender, msg, gave);
        }
    }
}

/// A receive that follows no log hands on what the channel gave. It is logged as just that while
/// recording, and not at all otherwise.
pub proof fn law_keyed_receive_hands_on<T, E: RecordReplayRecv>(
    mode: RRMode,
    tag: Tag,
    indices: IndicesView,
    wire: KeyedWire<T, E>,
    thread: ContextView,
    queues: Map<Option<Seq<u32>>, Seq<T>>,
    r: KeyedStep<Result<T, E>>,
    entry: Option<LogEntryView>,
    thread_after: ContextView,
    after: Map<Option<Seq<u32>>, Seq<T>>,
) -> (got: Result<Message<T>, E>)
    requires
        keyed_recv_step(
            mode,
            tag,
            indices,
            wire,
            thread,
            queues,
            r,
            entry,
            thread_after,
            after,
        ),
        mode != RRMode::Replay || thread.det_id is None,
    ensures
        (wire.direct)(got),
        r == KeyedStep::Done(bare(got)),
        after == queues,
        entry == (if mode == RRMode::Record {
            Some(
                tagged_entry(
                    thread,
                    match got {
                        Ok((sender, _)) => E::succ_event(sender@),
                        Err(e) => e.err_event(),
                    },
                    tag,
                ),
            )
        } else {
            None
        }),
        thread_after == (if mode == RRMode::NoRR {
            thread
        } else {
            thread.next_event()
        }),
{
    let (outcome, mid, kept) = choose|
        outcome: Result<Result<T, E>, DesyncErrorView>,
        mid: ContextView,
        kept: Map<Option<Seq<u32>>, Seq<T>>,
    |
        {
            &&& keyed_recv(mode, tag, indices, wire, thread, queues, outcome, entry, mid, kept)
            &&& #[trigger] keyed_settled(
                outcome,
                wire.direct,
                mid,
                kept,
                r,
                thread_after,
                after,
            )
        };
    if mode == RRMode::Record {
        choose|got: Result<Message<T>, E>|
            (wire.direct)(got) && #[trigger] logged_recv(tag, thread, got, outcome, entry)
    } else {
        choose|got: Result<Message<T>, E>| (wire.direct)(got) && #[trigger] handed_on(got, outcome)
    }
}

/// A receive with a log sleeps exactly where the log holds nothing for its event, and gives up only if
/// it has to on a desynchronization.
pub proof fn law_keyed_receive_sleeps_at_end_of_log<T, E: RecordReplayRecv>(
    mode: RRMode,
    tag: Tag,
    indices: IndicesView,
    wire: KeyedWire<T, E>,
    thread: ContextView,
    queues: Map<Option<Seq<u32>>, Seq<T>>,
    r: KeyedStep<Result<T, E>>,
    entry: Option<LogEntryView>,
    thread_after: ContextView,
    after: Map<Option<Seq<u32>>, Seq<T>>,
)
    requires
        keyed_recv_step(
            mode,
            tag,
            indices,
            wire,
            thread,
            queues,
            r,
            entry,
            thread_after,
            after,
        ),
    ensures
        r is Sleep <==> mode == RRMode::Replay && (thread.det_id matches Some(id)
            && !indices.contains_key((id, thread.event_id))),
        r is Sleep ==> after == queues && thread_after == thread && entry is None,
        r is Panic ==> thread.desync_mode == DesyncMode::Panic && mode == RRMode::Replay,
{
    let (outcome, mid, kept) = choose|
        outcome: Result<Result<T, E>, DesyncErrorView>,
        mid: ContextView,
        kept: Map<Option<Seq<u32>>, Seq<T>>,
    |
        {
            &&& keyed_recv(mode, tag, indices, wire, thread, queues, outcome, entry, mid, kept)
            &&& #[trigger] keyed_settled(
                outcome,
                wire.direct,
                mid,
                kept,
                r,
                thread_after,
                after,
            )
        };
    if mode == RRMode::Record {
        let got = choose|got: Result<Message<T>, E>|
            (wire.direct)(got) && #[trigger] logged_recv(tag, thread, got, outcome, entry);
        assert(logged_recv(tag, thread, got, outcome, entry));
    }
}

/// A select gives the operation of the real select, with its index, while nothing is replayed. While
/// replaying it gives what the log holds for its event.
pub proof fn law_keyed_select_gives_the_real_one<O>(
    mode: RRMode,
    indices: IndicesView,
    selects: spec_fn(usize, O) -> bool,
    thread: ContextView,
    r: KeyedStep<SelectedOperation<O>>,
)
    requires
        keyed_select_step(mode, indices, selects, thread, r),
    ensures
        !(r is Sleep),
        r is Panic ==> thread.desync_mode == DesyncMode::Panic && mode == RRMode::Replay,
        r matches KeyedStep::Done(op) ==> match op {
            SelectedOperation::Record(index, o) => mode == RRMode::Record && selects(index, o),
            SelectedOperation::NoRR(index, o) => mode == RRMode::NoRR && selects(index, o),
            SelectedOperation::Desync(index, o) => {
                &&& mode == RRMode::Replay
                &&& thread.desync_mode == DesyncMode::KeepGoing
                &&& selects(index, o)
            },
            SelectedOperation::Replay(event, flavor, id) => {
                &&& mode == RRMode::Replay
                &&& next_logged(indices, thread) matches Ok(logged)
                &&& logged.event == RecordedView::Select(event@)
                &&& flavor == logged.flavor
                &&& id@ == logged.id
            },
        },
{
    let outcome = choose|outcome: Result<SelectedOperation<O>, DesyncError>|
        {
            &&& keyed_select(mode, indices, selects, thread, outcome)
            &&& #[trigger] keyed_settled_select(outcome, selects, thread, r)
        };
    if mode == RRMode::Record {
        let (index, op) = choose|index: usize, op: O| #[trigger]
            selects(index, op) && outcome == Ok::<SelectedOperation<O>, DesyncError>(
                SelectedOperation::Record(index, op),
            );
        assert(selects(index, op));
    } else if mode == RRMode::NoRR {
        let (index, op) = choose|index: usize, op: O| #[trigger]
            selects(index, op) && outcome == Ok::<SelectedOperation<O>, DesyncError>(
                SelectedOperation::NoRR(index, op),
            );
        assert(selects(index, op));
    }
}

/// A query for a ready receiver gives what the real select gave, which is logged while recording, or what
/// the log holds for its event.
pub proof fn law_keyed_ready_gives_the_real_one(
    mode: RRMode,
    indices: IndicesView,
    readies: spec_fn(usize) -> bool,
    thread: ContextView,
    r: KeyedStep<usize>,
    entry: Option<LogEntryView>,
    thread_after: ContextView,
)
    requires
        keyed_ready_step(mode, indices, readies, thread, r, entry, thread_after),
    ensures
        !(r is Sleep),
        r is Panic ==> thread.desync_mode == DesyncMode::Panic && mode == RRMode::Replay,
        mode != RRMode::Replay ==> readies(r->Done_0),
        mode == RRMode::Record ==> entry == Some(
            tagged_entry(
                thread,
                RecordedView::SelectReady { select_index: r->Done_0 },
                ready_tag(),
            ),
        ),
        mode != RRMode::Record ==> entry is None,
        r matches KeyedStep::Done(index) ==> readies(index) || (next_logged(indices, thread) matches Ok(
            logged,
        ) && logged.event == RecordedView::SelectReady { select_index: index }),
{
    let outcome = choose|outcome: Result<usize, DesyncErrorView>|
        {
            &&& keyed_ready(mode, indices, readies, thread, outcome, entry, thread_after)
            &&& #[trigger] keyed_settled_ready(outcome, readies, thread, r)
        };
}

/// The operation that the real select gave, if it did.
pub open spec fn real_operation<O>(op: SelectedOperation<O>) -> Option<O> {
    match op {
        SelectedOperation::Record(_, o) => Some(o),
        SelectedOperation::NoRR(_, o) => Some(o),
        SelectedOperation::Desync(_, o) => Some(o),
        SelectedOperation::Replay(..) => None,
    }
}

/// The result that came off the channel, without its sender.
pub open spec fn payload<T>(raw: SelectedMessage<T>) -> Result<T, RecvErrorDef> {
    match raw {
        SelectedMessage::Plain(r) => r,
        SelectedMessage::Tagged(Ok((_, msg))) => Ok(msg),
        SelectedMessage::Tagged(Err(e)) => Err(e),
    }
}

/// The result of a real operation is handed on as it came, and nothing else is received or kept.
pub proof fn law_keyed_completion_hands_on_what_came<O, T>(
    op: SelectedOperation<O>,
    completes: spec_fn(O, SelectedMessage<T>) -> bool,
    thread: ContextView,
    before: Receiver<T>,
    r: Result<Result<T, RecvErrorDef>, DesyncErrorView>,
    entry: Option<LogEntryView>,
    thread_after: ContextView,
    after: Receiver<T>,
) -> (raw: SelectedMessage<T>)
    requires
        keyed_completion(op, completes, thread, before, r, entry, thread_after, after),
        keyed_completion_takes(op, before, r, after),
        real_operation(op) is Some,
    ensures
        completes(real_operation(op)->0, raw),
        r == Ok::<Result<T, RecvErrorDef>, DesyncErrorView>(payload(raw)),
        after.came() == before.came(),
        after.queues() == before.queues(),
        entry is Some <==> op is Record,
{
    let o = real_operation(op)->0;
    if let SelectedOperation::Record(index, _) = op {
        let tag = tag_of(before.metadata);
        let (raw, got) = choose|raw: SelectedMessage<T>, got: Result<Message<T>, RecvErrorDef>|
            {
                &&& completes(o, raw)
                &&& #[trigger] selected_message(thread.det_id, raw, got)
                &&& r == Ok::<Result<T, RecvErrorDef>, DesyncErrorView>(bare(got))
                &&& entry == Some(
                    tagged_entry(thread, RecordedView::Select(select_event(got, index)), tag),
                )
            };
        raw
    } else {
        let (raw, got) = choose|raw: SelectedMessage<T>, got: Result<Message<T>, RecvErrorDef>|
            {
                &&& completes(o, raw)
                &&& #[trigger] selected_message(thread.det_id, raw, got)
                &&& r == Ok::<Result<T, RecvErrorDef>, DesyncErrorView>(bare(got))
            };
        raw
    }
}

/// All receives that a replayed select makes on the receivers of a set are accounted for: for each
/// receiver and each sender, what they gave, in order and none left out, behind what was kept before,
/// is what the results hold for them followed by what is kept afterwards.
pub proof fn law_keyed_set_accounts_for_all<R, A, E, F>(
    recv: F,
    before: IpcReceiverSet<R, A>,
    indices: IndicesView,
    thread: ContextView,
    results: Vec<IpcSelectionResult<A>>,
    thread_after: ContextView,
    after: IpcReceiverSet<R, A>,
) -> (seen: Arrivals<R, A>)
    requires
        calls_select(
            recv,
            before,
            indices,
            thread,
            IpcSelectStep::<R, A, E>::Done(Ok(results)),
            thread_after,
            after,
        ),
        followed(before, indices, thread) is Some,
    ensures
        all_calls_at(recv, seen),
        on_receivers(seen, real_ends(before@.receivers)),
        after@.queues.len() == before@.queues.len(),
        forall|at: int, from: Option<Seq<u32>>|
            0 <= at < before@.queues.len() ==> #[trigger] handed(
                slots_of(followed(before, indices, thread)->0),
                results@,
                at,
                from,
            ) + queue_of(after@.queues[at], from) == queue_of(before@.queues[at], from) + arrived(
                path_of(),
                seen,
                at,
                from,
            ),
{
    let r = IpcSelectStep::<R, A, E>::Done(Ok(results));
    let (seen, outcome, mid, set) = choose|
        seen: Arrivals<R, A>,
        outcome: IpcSelecting<A, E>,
        mid: ContextView,
        set: IpcReceiverSet<R, A>,
    |
        {
            &&& all_calls_at(recv, seen)
            &&& #[trigger] select_accounted(
                before,
                indices,
                thread,
                seen,
                outcome,
                mid,
                set,
                r,
                thread_after,
                after,
            )
        };
    assert(set_select_takes(before, indices, thread, seen, outcome, set@));
    assert(settled_set_select(outcome, mid, set, r, thread_after, after));
    let events = followed(before, indices, thread)->0;
    assert(select_takes(before@, seen, events, outcome, set@));
    assert(outcome == IpcSelecting::<A, E>::Selected(Ok(results)));
    assert(after == set);
    let slots = slots_of(events);
    assert forall|at: int, from: Option<Seq<u32>>|
        0 <= at < before@.queues.len() implies #[trigger] handed(slots, results@, at, from)
        + queue_of(after@.queues[at], from) == queue_of(before@.queues[at], from) + arrived(
        path_of(),
        seen,
        at,
        from,
    ) by {
        assert(set_balanced(
            path_of(),
            before@.queues,
            seen,
            slots,
            results@,
            None,
            after@.queues,
            at,
            from,
        ));
        let all = handed(slots, results@, at, from) + queue_of(after@.queues[at], from);
        assert(all + Seq::<OpaqueIpcMessage<A>>::empty() =~= all);
    }
    seen
}

/// One select of a recording set returns what the one select of the real set gave, and it is logged as
/// just that. While nothing is recorded or replayed, it is returned and nothing is logged.
pub proof fn law_keyed_set_select_is_the_real_one<R, A, E>(
    before: IpcReceiverSet<R, A>,
    indices: IndicesView,
    selects: spec_fn(Result<Vec<IpcSelectionResult<A>>, E>) -> bool,
    tries: spec_fn(R, Attempt<A>) -> bool,
    thread: ContextView,
    r: IpcSelectStep<R, A, E>,
    entry: Option<LogEntryView>,
    thread_after: ContextView,
    after: IpcReceiverSet<R, A>,
)
    requires
        keyed_set_select_step(
            before,
            indices,
            selects,
            tries,
            thread,
            r,
            entry,
            thread_after,
            after,
        ),
        !thread.desynced,
        before.mode != RRMode::Replay,
    ensures
        r is Done || r is Broken,
        r matches IpcSelectStep::Done(v) ==> {
            &&& selects(v)
            &&& entry == (match v {
                Ok(results) => if before.mode == RRMode::Record {
                    Some(
                        tagged_entry(
                            thread,
                            RecordedView::IpcSelect { select_events: events_of(results@) },
                            select_tag(),
                        ),
                    )
                } else {
                    None
                },
                Err(_) => None,
            })
        },
        r is Broken ==> before.mode == RRMode::Record && entry is None,
        after@ == before@,
{
    let (outcome, mid, set) = choose|
        outcome: IpcSelecting<A, E>,
        mid: ContextView,
        set: IpcReceiverSet<R, A>,
    |
        {
            &&& keyed_set_select(
                before,
                indices,
                selects,
                tries,
                thread,
                outcome,
                entry,
                mid,
                set@,
            )
            &&& set.same_set(before)
            &&& #[trigger] settled_set_select(outcome, mid, set, r, thread_after, after)
        };
    if before.mode == RRMode::Record {
        let selected = choose|selected: Result<Vec<IpcSelectionResult<A>>, E>|
            {
                &&& selects(selected)
                &&& #[trigger] recorded_selection(selected, thread, outcome, entry, mid)
            };
        assert(recorded_selection(selected, thread, outcome, entry, mid));
    }
}

/// How far the addition of a receiver comes. The real set decides and its index is logged while
/// recording, and it alone decides while nothing is replayed. A replay gives the next index. On a
/// desynchronization the receiver comes back, or the run is given up.
pub proof fn law_keyed_addition_gives_the_real_index<R, A, E>(
    before: IpcReceiverSet<R, A>,
    receiver: OpaqueIpcReceiver<R>,
    indices: IndicesView,
    adds: spec_fn(R, Result<u64, E>) -> bool,
    thread: ContextView,
    r: AddStep<R, E>,
    entry: Option<LogEntryView>,
    thread_after: ContextView,
    after: IpcReceiverSet<R, A>,
)
    requires
        keyed_add_step(before, receiver, indices, adds, thread, r, entry, thread_after, after),
    ensures
        r matches AddStep::Done(v) ==> {
            &&& before.mode != RRMode::Replay ==> adds(receiver.opaque_receiver, v)
            &&& before.mode == RRMode::Replay ==> {
                &&& v == Ok::<u64, E>(before.index as u64)
                &&& after@.receivers == before@.receivers.push(receiver)
            }
            &&& entry == (if before.mode == RRMode::Record && v is Ok {
                Some(
                    tagged_entry(
                        thread,
                        RecordedView::IpcSelectAdd(v->Ok_0),
                        tag_of(receiver.metadata),
                    ),
                )
            } else {
                None
            })
        },
        r matches AddStep::Desync { to_move, receiver: back } ==> {
            &&& back == receiver.opaque_receiver
            &&& to_move@ == moved_receivers(before)
            &&& thread.desync_mode == DesyncMode::KeepGoing
        },
        r is Panic ==> thread.desync_mode == DesyncMode::Panic,
        before.mode != RRMode::Replay && !thread.desynced && !before.desynced ==> r is Done,
{
    let (outcome, mid, set) = choose|
        outcome: Adding<R, E>,
        mid: ContextView,
        set: IpcReceiverSet<R, A>,
    |
        {
            &&& keyed_add(before, receiver, indices, adds, thread, outcome, entry, mid, set)
            &&& #[trigger] settled_add(outcome, mid, set, r, thread_after, after)
        };
    if !thread.desynced && !before.desynced && before.mode == RRMode::Record {
        let added = choose|added: Result<u64, E>|
            {
                &&& adds(receiver.opaque_receiver, added)
                &&& #[trigger] recorded_add(
                    added,
                    tag_of(receiver.metadata),
                    thread,
                    outcome,
                    entry,
                    mid,
                )
            };
        assert(recorded_add(added, tag_of(receiver.metadata), thread, outcome, entry, mid));
    }
}

/// What becomes of a desynchronization: a thread that has to give up does so with nothing changed, and
/// tells why. A thread that goes on gets what is kept before anything else, and never sleeps.
pub proof fn law_keyed_desynchronized_receive<T, E>(
    desync: DesyncErrorView,
    direct: spec_fn(Result<Message<T>, E>) -> bool,
    thread: ContextView,
    queues: Map<Option<Seq<u32>>, Seq<T>>,
    r: KeyedStep<Result<T, E>>,
    thread_after: ContextView,
    after: Map<Option<Seq<u32>>, Seq<T>>,
)
    requires
        keyed_desync(desync, direct, thread, queues, r, thread_after, after),
    ensures
        !(r is Sleep),
        r is Panic <==> thread.desync_mode == DesyncMode::Panic,
        r matches KeyedStep::Panic(e) ==> e@ == desync && thread_after == thread && after == queues,
        r is Done ==> thread_after.desynced,
        r is Done && !all_empty(queues) ==> r->Done_0 is Ok,
        r is Done && all_empty(queues) ==> all_empty(after) && exists|
            got: Result<Message<T>, E>,
        | #[trigger] direct(got) && r == KeyedStep::Done(bare(got)),
{
}

} // verus!
