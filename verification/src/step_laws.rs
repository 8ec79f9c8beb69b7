//! How far operations come: when they succeed, sleep or give up.

use vstd::prelude::*;
use crate::crossbeam::{polled_entry, Receiver};
use crate::crossbeam_select::{
    replayed_completion,
    desync_select, ready_metadata, ready_relation, ready_step, select_relation, select_step,
    settled_ready, settled_select, SelectedOperation, SelectedOperationImpl, Selecting,
};
use crate::desync::{desync_step, without_sender, DesyncMode, DetMessage, Step};
use crate::detthread::{DetThreadId, ThreadView};
use crate::error::{DesyncError, DesyncErrorView, RecvErrorDef, RecvErrorRR};
use crate::ipc::{waited, ATTEMPTS};
use crate::ipc_message::{waited_opaque, Attempt, OpaqueIpcMessage};
use crate::strict::{is_from, strict_wait};
use crate::mode::RRMode;
use crate::recorder::{creation_is_next, LogView};
use crate::recordlog::{
    entry_of, ChannelVariant, EntryView, MetadataView, SelectEventView, TivoEventView,
};
use crate::rr::{
    event_mismatch, expected_recv, handed_on, is_other, name_timeout, recorded_recv, recv_event,
    recv_expected, recv_relation, recv_step, settled, ChannelIdView, Poll, PollOf, RecvRecordReplay,
    Wire,
};
use crate::send::{
    handed_over, passed_on, send_relation, send_step, settled_send, SendStep, SenderKind, Sent,
};
use crate::source::{lemma_none_taken, lemma_stash_came, not_from};
use crate::thread_map::{all_empty, keep, queue_of};
use crate::tivo::creation_step;

verus! {

/// The message was handed to the channel under the id of its thread, and the channel gave `gave`.
pub open spec fn reached_channel<T, E>(
    sends: spec_fn(DetMessage<T>, Result<(), E>) -> bool,
    sender: Seq<u32>,
    msg: T,
    gave: Result<(), E>,
) -> bool {
    exists|id: DetThreadId| id@ == sender && #[trigger] sends((id, msg), gave)
}

proof fn lemma_handed_over<T, E>(
    sends: spec_fn(DetMessage<T>, Result<(), E>) -> bool,
    id: DetThreadId,
    sender: Seq<u32>,
    msg: T,
    gave: Result<(), E>,
)
    requires
        handed_over(sends, id, sender, msg, gave),
    ensures
        reached_channel(sends, sender, msg, gave),
{
    assert(id@ == sender && sends((id, msg), gave));
}

/// A send that is done has handed its message to the channel, under the id of its thread, and tells what
/// the channel gave. It sleeps with its message only at the end of the log of a replay, and always
/// there. It gives up only if it has to on a desynchronization, or if the log cannot be written.
pub proof fn law_send_reaches_its_channel<T, E>(
    kind: SenderKind,
    mode: RRMode,
    metadata: MetadataView,
    sends: spec_fn(DetMessage<T>, Result<(), E>) -> bool,
    thread: ThreadView,
    msg: T,
    r: SendStep<T, E>,
    thread_after: ThreadView,
)
    requires
        send_step(kind, mode, metadata, sends, thread, msg, r, thread_after),
    ensures
        match r {
            SendStep::Done(gave) => reached_channel(sends, thread.det_id, msg, gave),
            SendStep::Sleep(back) => {
                &&& back == msg
                &&& mode == RRMode::Replay
                &&& thread.log.remaining.len() == 0
                &&& !thread.desynced
            },
            SendStep::Panic(_) => {
                ||| thread.desync_mode == DesyncMode::Panic
                ||| mode == RRMode::Record && thread_after.log.written == thread.log.written
            },
        },
        mode == RRMode::Replay && thread.log.remaining.len() == 0 && !thread.desynced
            ==> r is Sleep,
        mode == RRMode::NoRR && !thread.desynced ==> r is Done && thread_after == thread,
        thread.desync_mode == DesyncMode::KeepGoing && mode != RRMode::Record ==> !(r is Panic),
{
    let (outcome, mid) = choose|outcome: Sent<T, E>, mid: ThreadView|
        {
            &&& send_relation(kind, mode, metadata, sends, thread, msg, outcome, mid)
            &&& #[trigger] settled_send(outcome, sends, mid, r, thread_after)
        };
    assert(mid.det_id == thread.det_id && mid.desync_mode == thread.desync_mode);
    if let SendStep::Done(gave) = r {
        if let Sent::Desync(_, back) = outcome {
            let (id, result) = choose|id: DetThreadId, result: Result<(), E>| #[trigger]
                handed_over(sends, id, mid.det_id, back, result) && r == SendStep::<T, E>::Done(
                    result,
                );
            lemma_handed_over(sends, id, thread.det_id, msg, gave);
        } else if mode == RRMode::Record {
            let (id, result) = choose|id: DetThreadId, result: Result<(), E>| #[trigger]
                handed_over(sends, id, thread.det_id, msg, result) && (match outcome {
                    Sent::Sent(v) => v == result,
                    Sent::Desync(_, _) => false,
                    Sent::LogFailed(e) => e@ == DesyncErrorView::CannotWriteEventToLog(
                        entry_of(kind.event(), metadata),
                    ),
                });
            lemma_handed_over(sends, id, thread.det_id, msg, gave);
        } else {
            assert(passed_on(sends, thread.det_id, msg, outcome));
            let (id, result) = choose|id: DetThreadId, result: Result<(), E>| #[trigger]
                handed_over(sends, id, thread.det_id, msg, result) && outcome == Sent::<
                    T,
                    E,
                >::Sent(result);
            lemma_handed_over(sends, id, thread.det_id, msg, gave);
        }
    }
}

/// A recorded send that is done has added its own event to the log, and nothing else.
pub proof fn law_recorded_send_is_written<T, E>(
    kind: SenderKind,
    metadata: MetadataView,
    sends: spec_fn(DetMessage<T>, Result<(), E>) -> bool,
    thread: ThreadView,
    msg: T,
    r: SendStep<T, E>,
    thread_after: ThreadView,
)
    requires
        send_step(kind, RRMode::Record, metadata, sends, thread, msg, r, thread_after),
        !thread.desynced,
    ensures
        thread_after.log.written == (if r is Done {
            thread.log.written.push(entry_of(kind.event(), metadata))
        } else {
            thread.log.written
        }),
        !(r is Sleep),
{
    let (outcome, mid) = choose|outcome: Sent<T, E>, mid: ThreadView|
        {
            &&& send_relation(kind, RRMode::Record, metadata, sends, thread, msg, outcome, mid)
            &&& #[trigger] settled_send(outcome, sends, mid, r, thread_after)
        };
}

/// Sends of different kinds of channels are told apart in the log.
pub proof fn law_sends_are_told_apart(one: SenderKind, other: SenderKind)
    ensures
        one.event() == other.event() <==> one == other,
{
}

/// What becomes of a desynchronization: a thread that has to give up does so with nothing changed, and
/// tells why. A thread that goes on gets what is kept before anything else, and never sleeps.
pub proof fn law_desynchronized_receive<T, E>(
    desync: DesyncErrorView,
    direct: spec_fn(Result<DetMessage<T>, E>) -> bool,
    thread: ThreadView,
    queues: Map<Seq<u32>, Seq<T>>,
    r: Step<Result<T, E>>,
    thread_after: ThreadView,
    after: Map<Seq<u32>, Seq<T>>,
)
    requires
        desync_step(desync, direct, thread, queues, r, thread_after, after),
    ensures
        !(r is Sleep),
        r is Panic <==> thread.desync_mode == DesyncMode::Panic,
        r matches Step::Panic(e) ==> e@ == desync && thread_after == thread && after == queues,
        r is Done ==> thread_after.desynced,
        r is Done && !all_empty(queues) ==> r->Done_0 is Ok && exists|sender: Seq<u32>| {
            &&& (#[trigger] queue_of(queues, sender)).len() > 0
            &&& r->Done_0 == Ok::<T, E>(queue_of(queues, sender)[0])
        },
        r is Done && all_empty(queues) ==> all_empty(after) && exists|
            got: Result<DetMessage<T>, E>,
        | #[trigger] direct(got) && r == Step::Done(without_sender(got)),
{
    if !all_empty(queues) && r is Done {
        let msg = r->Done_0->Ok_0;
        let sender = choose|sender: Seq<u32>|
            {
                &&& (#[trigger] queue_of(queues, sender)).len() > 0
                &&& msg == queue_of(queues, sender)[0]
                &&& after == crate::thread_map::dequeue(queues, sender)
            };
        assert(queue_of(queues, sender).len() > 0);
    }
}

proof fn lemma_recv_parts<T, E: RecvRecordReplay>(
    mode: RRMode,
    metadata: MetadataView,
    wire: Wire<T, E>,
    thread: ThreadView,
    queues: Map<Seq<u32>, Seq<T>>,
    r: Step<Result<T, E>>,
    thread_after: ThreadView,
    after: Map<Seq<u32>, Seq<T>>,
) -> (parts: (Result<Result<T, E>, DesyncErrorView>, LogView, Map<Seq<u32>, Seq<T>>))
    requires
        recv_step(mode, metadata, wire, thread, queues, r, thread_after, after),
    ensures
        recv_relation(
            mode,
            metadata,
            wire.direct,
            wire.polled,
            thread.log,
            queues,
            parts.0,
            parts.1,
            parts.2,
        ),
        settled(
            parts.0,
            wire.direct,
            thread.with_log(parts.1),
            parts.2,
            r,
            thread_after,
            after,
        ),
{
    choose|
        outcome: Result<Result<T, E>, DesyncErrorView>,
        log: LogView,
        mid: Map<Seq<u32>, Seq<T>>,
    |
        {
            &&& recv_relation(
                mode,
                metadata,
                wire.direct,
                wire.polled,
                thread.log,
                queues,
                outcome,
                log,
                mid,
            )
            &&& #[trigger] settled(
                outcome,
                wire.direct,
                thread.with_log(log),
                mid,
                r,
                thread_after,
                after,
            )
        }
}

/// A receive sleeps only at the end of the log of a replay, and always there, with nothing changed but
/// the number of its events. It gives up only if it has to on a desynchronization.
pub proof fn law_receive_sleeps_at_end_of_log<T, E: RecvRecordReplay>(
    mode: RRMode,
    metadata: MetadataView,
    wire: Wire<T, E>,
    thread: ThreadView,
    queues: Map<Seq<u32>, Seq<T>>,
    r: Step<Result<T, E>>,
    thread_after: ThreadView,
    after: Map<Seq<u32>, Seq<T>>,
)
    requires
        recv_step(mode, metadata, wire, thread, queues, r, thread_after, after),
    ensures
        r is Sleep <==> mode == RRMode::Replay && thread.log.remaining.len() == 0,
        r is Sleep ==> {
            &&& after == queues
            &&& thread_after.log.remaining.len() == 0
            &&& thread_after.log.written == thread.log.written
            &&& thread_after.desynced == thread.desynced
        },
        r is Panic ==> thread.desync_mode == DesyncMode::Panic,
        mode == RRMode::NoRR ==> r is Done,
{
    let (outcome, log, mid) = lemma_recv_parts(
        mode,
        metadata,
        wire,
        thread,
        queues,
        r,
        thread_after,
        after,
    );
    if mode == RRMode::Replay && thread.log.remaining.len() > 0 {
        E::lemma_outcome(thread.log.remaining[0].event);
    }
}

/// While nothing is recorded or replayed, a receive hands on what the channel gave, and changes neither
/// the thread nor what is kept.
pub proof fn law_plain_receive_hands_on<T, E: RecvRecordReplay>(
    metadata: MetadataView,
    wire: Wire<T, E>,
    thread: ThreadView,
    queues: Map<Seq<u32>, Seq<T>>,
    r: Step<Result<T, E>>,
    thread_after: ThreadView,
    after: Map<Seq<u32>, Seq<T>>,
) -> (got: Result<DetMessage<T>, E>)
    requires
        recv_step(RRMode::NoRR, metadata, wire, thread, queues, r, thread_after, after),
    ensures
        (wire.direct)(got),
        r == Step::Done(without_sender(got)),
        thread_after == thread,
        after == queues,
{
    let (outcome, log, mid) = lemma_recv_parts(
        RRMode::NoRR,
        metadata,
        wire,
        thread,
        queues,
        r,
        thread_after,
        after,
    );
    choose|got: Result<DetMessage<T>, E>|
        (wire.direct)(got) && #[trigger] handed_on(got, outcome)
}

/// A recorded receive whose result could be written hands on what the channel gave, and the log grows by
/// the event of just that.
pub proof fn law_recorded_receive_is_written<T, E: RecvRecordReplay>(
    metadata: MetadataView,
    wire: Wire<T, E>,
    thread: ThreadView,
    queues: Map<Seq<u32>, Seq<T>>,
    r: Step<Result<T, E>>,
    thread_after: ThreadView,
    after: Map<Seq<u32>, Seq<T>>,
) -> (got: Result<DetMessage<T>, E>)
    requires
        recv_step(RRMode::Record, metadata, wire, thread, queues, r, thread_after, after),
        thread_after.log.written != thread.log.written,
    ensures
        (wire.direct)(got),
        r == Step::Done(without_sender(got)),
        thread_after.log.written == thread.log.written.push(
            entry_of(
                match got {
                    Ok((sender, _)) => E::succ_event(sender@),
                    Err(e) => e.err_event(),
                },
                metadata,
            ),
        ),
        after == queues,
{
    let (outcome, log, mid) = lemma_recv_parts(
        RRMode::Record,
        metadata,
        wire,
        thread,
        queues,
        r,
        thread_after,
        after,
    );
    let got = choose|got: Result<DetMessage<T>, E>|
        (wire.direct)(got) && #[trigger] recorded_recv(metadata, got, thread.log, outcome, log);
    assert(recv_event(got) == (match got {
        Ok((sender, _)) => E::succ_event(sender@),
        Err(e) => e.err_event(),
    }));
    got
}

/// A replay does not accept an entry of another channel, or of another operation: it is told as a
/// desynchronization, and what is kept stays as it is if the thread gives up.
pub proof fn law_foreign_entry_is_refused<T, E: RecvRecordReplay>(
    metadata: MetadataView,
    wire: Wire<T, E>,
    thread: ThreadView,
    queues: Map<Seq<u32>, Seq<T>>,
    r: Step<Result<T, E>>,
    thread_after: ThreadView,
    after: Map<Seq<u32>, Seq<T>>,
)
    requires
        recv_step(RRMode::Replay, metadata, wire, thread, queues, r, thread_after, after),
        thread.log.remaining.len() > 0,
        ({
            let entry = thread.log.remaining[0];
            ||| E::decode(entry.event) is None
            ||| entry.chan_id != metadata.id
            ||| entry.channel_variant != metadata.channel_variant
        }),
    ensures
        thread.desync_mode == DesyncMode::Panic ==> r is Panic && after == queues,
        thread.desync_mode == DesyncMode::KeepGoing ==> r is Done && thread_after.desynced,
{
    let (outcome, log, mid) = lemma_recv_parts(
        RRMode::Replay,
        metadata,
        wire,
        thread,
        queues,
        r,
        thread_after,
        after,
    );
}

/// An error that was recorded comes back as it was, without a message being waited for.
pub proof fn law_recorded_error_comes_back<T, E: RecvRecordReplay>(
    metadata: MetadataView,
    wire: Wire<T, E>,
    error: E,
    thread: ThreadView,
    queues: Map<Seq<u32>, Seq<T>>,
    r: Step<Result<T, E>>,
    thread_after: ThreadView,
    after: Map<Seq<u32>, Seq<T>>,
)
    requires
        recv_step(RRMode::Replay, metadata, wire, thread, queues, r, thread_after, after),
        thread.log.remaining.len() > 0,
        thread.log.remaining[0] == entry_of(error.err_event(), metadata),
    ensures
        r == Step::<Result<T, E>>::Done(Err(error)),
        after == queues,
        thread_after.desynced == thread.desynced,
{
    E::lemma_decode(Seq::<u32>::empty(), error);
    let (outcome, log, mid) = lemma_recv_parts(
        RRMode::Replay,
        metadata,
        wire,
        thread,
        queues,
        r,
        thread_after,
        after,
    );
}

/// A select that is not refused gives the operation of the real select, with its index, while nothing is
/// replayed. It sleeps only at the end of the log of a replay, and always there.
pub proof fn law_select_gives_the_real_one<O>(
    mode: RRMode,
    receivers: Seq<usize>,
    selects: spec_fn(usize, O) -> bool,
    polls: spec_fn(usize, Seq<u32>, Result<bool, DesyncError>) -> bool,
    buffered: spec_fn(usize, bool) -> bool,
    thread: ThreadView,
    r: Step<SelectedOperation<O>>,
    thread_after: ThreadView,
)
    requires
        select_step(mode, receivers, selects, polls, buffered, thread, r, thread_after),
    ensures
        r is Sleep <==> mode == RRMode::Replay && thread.log.remaining.len() == 0
            && !thread.desynced,
        !thread.desynced && mode != RRMode::Replay ==> thread_after == thread && match r {
            Step::Done(op) => match op.inner {
                SelectedOperationImpl::Record(index, o) => mode == RRMode::Record && selects(
                    index,
                    o,
                ),
                SelectedOperationImpl::NoRR(index, o) => mode == RRMode::NoRR && selects(index, o),
                _ => false,
            },
            _ => false,
        },
        r matches Step::Done(op) ==> match op.inner {
            SelectedOperationImpl::Record(index, o) => selects(index, o),
            SelectedOperationImpl::NoRR(index, o) => selects(index, o),
            SelectedOperationImpl::Desync(index, o) => {
                &&& selects(index, o)
                &&& thread_after.desynced
                &&& forall|i: int|
                    0 <= i < receivers.len() ==> buffered(#[trigger] receivers[i], false)
            },
            SelectedOperationImpl::DesyncBufferEntry(index) => {
                &&& receivers.contains(index)
                &&& buffered(index, true)
                &&& thread_after.desynced
            },
            SelectedOperationImpl::Replay(event, variant, id) => {
                &&& mode == RRMode::Replay
                &&& thread.log.remaining.len() > 0
                &&& thread.log.remaining[0].event == TivoEventView::CrossbeamSelect(event@)
                &&& variant == thread.log.remaining[0].channel_variant
                &&& id@ == thread.log.remaining[0].chan_id
                &&& event@ matches SelectEventView::Success { selected_index, .. }
                    ==> receivers.contains(selected_index)
            },
        },
{
    let (outcome, mid) = choose|outcome: Selecting<O>, mid: ThreadView|
        {
            &&& select_relation(mode, receivers, selects, polls, thread, outcome, mid)
            &&& #[trigger] settled_select(
                outcome,
                receivers,
                selects,
                buffered,
                mid,
                r,
                thread_after,
            )
        };
}

/// A query for a ready receiver gives what the real select gave, which is logged while recording, or what
/// the log tells. It never sleeps.
pub proof fn law_ready_gives_the_real_one(
    mode: RRMode,
    readies: spec_fn(usize) -> bool,
    thread: ThreadView,
    r: Step<usize>,
    thread_after: ThreadView,
)
    requires
        ready_step(mode, readies, thread, r, thread_after),
    ensures
        !(r is Sleep),
        r is Panic ==> thread.desync_mode == DesyncMode::Panic,
        !thread.desynced && mode != RRMode::Replay ==> r is Done && readies(r->Done_0),
        !thread.desynced && mode == RRMode::Record ==> {
            ||| thread_after.log.written == thread.log.written
            ||| thread_after.log.written == thread.log.written.push(
                entry_of(
                    TivoEventView::CrossbeamSelectReady { select_index: r->Done_0 },
                    ready_metadata(),
                ),
            )
        },
        !thread.desynced && mode == RRMode::NoRR ==> thread_after == thread,
        r is Done ==> readies(r->Done_0) || (mode == RRMode::Replay && thread.log.remaining.len() > 0
            && thread.log.remaining[0].event == (TivoEventView::CrossbeamSelectReady {
            select_index: r->Done_0,
        })),
{
    let (outcome, mid) = choose|outcome: Result<usize, DesyncErrorView>, mid: ThreadView|
        {
            &&& ready_relation(mode, readies, thread, outcome, mid)
            &&& #[trigger] settled_ready(outcome, readies, mid, r, thread_after)
        };
}

/// A select after a desynchronization gives up only if it has to. Otherwise a receiver that keeps a
/// message comes before the real select.
pub proof fn law_desynchronized_select<O>(
    desync: DesyncErrorView,
    receivers: Seq<usize>,
    selects: spec_fn(usize, O) -> bool,
    buffered: spec_fn(usize, bool) -> bool,
    thread: ThreadView,
    r: Step<SelectedOperation<O>>,
    thread_after: ThreadView,
    keeping: usize,
)
    requires
        desync_select(desync, receivers, selects, buffered, thread, r, thread_after),
        forall|index: usize, found: bool| #[trigger]
            buffered(index, found) ==> found == (index == keeping),
        receivers.contains(keeping),
    ensures
        r is Panic <==> thread.desync_mode == DesyncMode::Panic,
        !(r is Sleep),
        r matches Step::Done(op) ==> op.inner == SelectedOperationImpl::<O>::DesyncBufferEntry(
            keeping,
        ),
{
    if let Step::Done(op) = r {
        match op.inner {
            SelectedOperationImpl::Desync(_, _) => {
                let i = choose|i: int| 0 <= i < receivers.len() && receivers[i] == keeping;
                assert(buffered(receivers[i], false));
            },
            SelectedOperationImpl::DesyncBufferEntry(index) => {
                assert(buffered(index, true));
            },
            _ => {},
        }
    }
}

/// A logged entry is accepted exactly if it is of the operation and of the channel. Otherwise it is told
/// what was logged: another operation first, then another kind of channel, then another channel.
pub proof fn law_mismatch_is_told(
    accepted: bool,
    expected: TivoEventView,
    entry: EntryView,
    metadata: MetadataView,
)
    ensures
        ({
            let why = event_mismatch(accepted, expected, entry, metadata);
            &&& why is None <==> accepted && entry.channel_variant == metadata.channel_variant
                && entry.chan_id == metadata.id
            &&& !accepted ==> why == Some(DesyncErrorView::EventMismatch(entry.event, expected))
            &&& accepted && entry.channel_variant != metadata.channel_variant ==> why == Some(
                DesyncErrorView::ChannelVariantMismatch(
                    entry.channel_variant,
                    metadata.channel_variant,
                ),
            )
            &&& why matches Some(DesyncErrorView::ChannelMismatch(logged, current)) ==> logged
                == entry.chan_id && current == metadata.id && logged != current
        }),
{
}

/// A message that was waited for is handed on. A wait that failed is told as it failed, and a timeout
/// names the type of the message.
pub proof fn law_failed_wait_is_told<T, E>(
    found: Result<T, DesyncErrorView>,
    message_type: Seq<char>,
)
    ensures
        ({
            let r = name_timeout::<T, E>(found, message_type);
            &&& found matches Ok(msg) ==> r == Ok::<Result<T, E>, DesyncErrorView>(Ok(msg))
            &&& found is Err ==> r is Err
            &&& found == Err::<T, DesyncErrorView>(DesyncErrorView::Disconnected) ==> r == Err::<
                Result<T, E>,
                DesyncErrorView,
            >(DesyncErrorView::Disconnected)
            &&& found == Err::<T, DesyncErrorView>(DesyncErrorView::Timeout(None)) ==> r == Err::<
                Result<T, E>,
                DesyncErrorView,
            >(DesyncErrorView::Timeout(Some(message_type)))
        }),
{
}

/// A poll tells the truth: there is a message from the sender exactly if one is kept afterwards.
pub proof fn law_poll_tells_what_is_kept<T>(
    queues: Map<Seq<u32>, Seq<T>>,
    sender: Seq<u32>,
    polled: spec_fn(Poll<T>) -> bool,
    r: Result<bool, DesyncErrorView>,
    after: Map<Seq<u32>, Seq<T>>,
)
    requires
        polled_entry(queues, sender, polled, r, after),
    ensures
        r == Ok::<bool, DesyncErrorView>(true) <==> queue_of(after, sender).len() > 0,
        queue_of(queues, sender).len() > 0 ==> r == Ok::<bool, DesyncErrorView>(true) && after
            == queues,
{
    if queue_of(queues, sender).len() == 0 {
        let (found, mid) = choose|found: Result<T, DesyncErrorView>, mid: Map<Seq<u32>, Seq<T>>|
            {
                &&& #[trigger] recv_expected(queues, sender, polled, found, mid)
                &&& match found {
                    Ok(msg) => r == Ok::<bool, DesyncErrorView>(true) && after == keep(
                        mid,
                        sender,
                        msg,
                    ),
                    Err(DesyncErrorView::Timeout(_)) => r == Ok::<bool, DesyncErrorView>(false)
                        && after == mid,
                    Err(e) => r == Err::<bool, DesyncErrorView>(e) && after == mid,
                }
            };
        let polls = choose|polls: Seq<Poll<T>>|
            {
                &&& #[trigger] expected_recv(queues, sender, polls, found, mid)
                &&& forall|i: int| 0 <= i < polls.len() ==> polled(#[trigger] polls[i])
            };
        let stashed = if polls.last() is Ok && found is Err {
            polls
        } else {
            polls.drop_last()
        };
        assert forall|i: int| 0 <= i < stashed.len() implies not_from(
            #[trigger] stashed[i],
            sender,
        ) by {
            if i < polls.len() - 1 {
                assert(is_other(polls[i], sender));
            }
        }
        lemma_none_taken(stashed, sender);
        lemma_stash_came(queues, stashed, sender);
        assert(queue_of(mid, sender).len() == 0);
    }
}

/// The completion of a replayed operation is refused on any channel but the one that the log tells, and
/// nothing is received or kept then.
pub proof fn law_foreign_completion_is_refused<T>(
    event: SelectEventView,
    variant: ChannelVariant,
    id: ChannelIdView,
    thread: ThreadView,
    before: Receiver<T>,
    r: Result<Result<T, RecvErrorDef>, DesyncErrorView>,
    after: Receiver<T>,
)
    requires
        replayed_completion(event, variant, id, thread, before, r, after),
    ensures
        variant != before.metadata@.channel_variant || id != before.metadata@.id ==> r is Err
            && after.queues() == before.queues(),
        variant == before.metadata@.channel_variant && id == before.metadata@.id
            && event is RecvError ==> r == Ok::<Result<T, RecvErrorDef>, DesyncErrorView>(
            Err(RecvErrorDef {  }),
        ),
{
}

/// The creation of a channel is written to the log while recording, and nothing else is. It fails only if
/// that fails, or if the log of a replay tells of the creation of another channel.
pub proof fn law_creation_is_written(
    thread: ThreadView,
    metadata: MetadataView,
    r: Result<(), DesyncErrorView>,
    after: ThreadView,
)
    requires
        creation_step(thread, metadata, r, after),
    ensures
        !thread.desynced && thread.mode == RRMode::Record ==> after.log.written == (if r is Ok {
            thread.log.written.push(entry_of(TivoEventView::ChannelCreation, metadata))
        } else {
            thread.log.written
        }),
        thread.mode != RRMode::Record || thread.desynced ==> after.log.written
            == thread.log.written,
        thread.mode == RRMode::NoRR || thread.desynced ==> r is Ok && after == thread,
        !thread.desynced && thread.mode == RRMode::Replay ==> {
            &&& !creation_is_next(thread.log) ==> r is Ok && after == thread
            &&& creation_is_next(thread.log) ==> {
                &&& after.log.remaining == thread.log.remaining.drop_first()
                &&& r is Ok <==> thread.log.remaining[0].chan_id == metadata.id
                    && thread.log.remaining[0].channel_variant == metadata.channel_variant
            }
        },
{
}

/// A wait for a message goes on until the message comes: it ends with the first one from the sender, with
/// the first error, or when no more messages can be counted, and never before.
pub proof fn law_wait_ends_with_its_message<I: View, T>(
    queues: Map<I::V, Seq<T>>,
    sender: I::V,
    polls: Seq<PollOf<I, T>>,
    r: Result<T, DesyncErrorView>,
    after: Map<I::V, Seq<T>>,
)
    requires
        expected_recv(queues, sender, polls, r, after),
    ensures
        queue_of(queues, sender).len() > 0 ==> polls.len() == 0 && r == Ok::<T, DesyncErrorView>(
            queue_of(queues, sender)[0],
        ),
        queue_of(queues, sender).len() == 0 ==> polls.len() > 0,
        forall|i: int|
            0 <= i < polls.len() ==> match #[trigger] polls[i] {
                Ok((id, msg)) => id@ == sender ==> i == polls.len() - 1 && r == Ok::<
                    T,
                    DesyncErrorView,
                >(msg),
                Err(e) => i == polls.len() - 1 && r == Err::<T, DesyncErrorView>(
                    match e {
                        RecvErrorRR::Timeout => DesyncErrorView::Timeout(None),
                        RecvErrorRR::Disconnected => DesyncErrorView::Disconnected,
                    },
                ),
            },
        r is Err ==> polls.last() is Err || polls.len() == u64::MAX,
        r is Ok && polls.len() > 0 ==> polls.last() is Ok,
{
    assert forall|i: int| 0 <= i < polls.len() implies match #[trigger] polls[i] {
        Ok((id, msg)) => id@ == sender ==> i == polls.len() - 1 && r == Ok::<T, DesyncErrorView>(
            msg,
        ),
        Err(e) => i == polls.len() - 1 && r == Err::<T, DesyncErrorView>(
            match e {
                RecvErrorRR::Timeout => DesyncErrorView::Timeout(None),
                RecvErrorRR::Disconnected => DesyncErrorView::Disconnected,
            },
        ),
    } by {
        if i < polls.len() - 1 {
            assert(is_other(polls[i], sender));
        }
    }
}

/// A strict wait goes on until the message comes, or until no more receives can be counted.
pub proof fn law_strict_wait_ends_with_its_message<T>(
    queues: Map<Seq<u32>, Seq<T>>,
    sender: Seq<u32>,
    polls: Seq<Poll<T>>,
    r: Option<T>,
    after: Map<Seq<u32>, Seq<T>>,
)
    requires
        strict_wait(queues, sender, polls, r, after),
    ensures
        queue_of(queues, sender).len() > 0 ==> polls.len() == 0 && r == Some(
            queue_of(queues, sender)[0],
        ),
        forall|i: int|
            0 <= i < polls.len() ==> (#[trigger] polls[i] matches Ok((id, msg)) ==> (id@ == sender
                ==> i == polls.len() - 1 && r == Some(msg))),
        r is None ==> polls.len() == u64::MAX,
{
    assert forall|i: int| 0 <= i < polls.len() implies (#[trigger] polls[i] matches Ok((id, msg))
        ==> (id@ == sender ==> i == polls.len() - 1 && r == Some(msg))) by {
        if i < polls.len() - 1 {
            assert(!is_from(polls[i], sender));
        }
    }
}

/// A wait on an inter-process channel ends with the first message, and gives up only after as many
/// attempts as it may make, all of which failed.
pub proof fn law_ipc_wait_makes_all_attempts<M, E>(
    attempts: Seq<Result<M, E>>,
    r: Result<M, RecvErrorRR>,
)
    requires
        waited(attempts, r),
    ensures
        attempts.len() <= ATTEMPTS,
        r is Err ==> attempts.len() == ATTEMPTS && r == Err::<M, RecvErrorRR>(RecvErrorRR::Timeout),
        forall|i: int|
            0 <= i < attempts.len() ==> (#[trigger] attempts[i] matches Ok(m) ==> i == attempts.len()
                - 1 && r == Ok::<M, RecvErrorRR>(m)),
{
    assert forall|i: int| 0 <= i < attempts.len() implies (#[trigger] attempts[i] matches Ok(m)
        ==> i == attempts.len() - 1 && r == Ok::<M, RecvErrorRR>(m)) by {
        if i < attempts.len() - 1 {
            assert(attempts[i] is Err);
        }
    }
}

/// A wait on a receiver of a set ends with the first message or with the end of the channel, and gives up
/// only after as many attempts as it may make, all of which failed.
pub proof fn law_set_wait_makes_all_attempts<A>(
    attempts: Seq<Attempt<A>>,
    r: Result<OpaqueIpcMessage<A>, RecvErrorRR>,
)
    requires
        waited_opaque(attempts, r),
    ensures
        attempts.len() <= ATTEMPTS,
        r == Err::<OpaqueIpcMessage<A>, RecvErrorRR>(RecvErrorRR::Timeout) ==> attempts.len()
            == ATTEMPTS,
        forall|i: int|
            0 <= i < attempts.len() ==> match #[trigger] attempts[i] {
                Attempt::Message(m) => i == attempts.len() - 1 && r == Ok::<
                    OpaqueIpcMessage<A>,
                    RecvErrorRR,
                >(m),
                Attempt::Closed => i == attempts.len() - 1 && r == Err::<
                    OpaqueIpcMessage<A>,
                    RecvErrorRR,
                >(RecvErrorRR::Disconnected),
                Attempt::Failed => true,
            },
{
    assert forall|i: int| 0 <= i < attempts.len() implies match #[trigger] attempts[i] {
        Attempt::Message(m) => i == attempts.len() - 1 && r == Ok::<
            OpaqueIpcMessage<A>,
            RecvErrorRR,
        >(m),
        Attempt::Closed => i == attempts.len() - 1 && r == Err::<
            OpaqueIpcMessage<A>,
            RecvErrorRR,
        >(RecvErrorRR::Disconnected),
        Attempt::Failed => true,
    } by {
        if i < attempts.len() - 1 {
            assert(attempts[i] is Failed);
        }
    }
}

} // verus!
