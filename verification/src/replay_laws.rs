//! How the replay of a thread meets its record, over one log and on any number of channels.
//!
//! The messages of different channels may be of different types. Laws that speak of all channels of a
//! thread take them as values of one type `U`, into which `f` maps the messages of a channel. An
//! error is known by the event that records it.

use vstd::prelude::*;
use crate::crossbeam::{polled_entry, Receiver};
use crate::crossbeam_select::{
    completion, recorded_select, replayed_completion, select_event, select_polled,
    select_relation, BufferedReceiver, SelectedMessage, SelectedOperationImpl, Selecting,
};
use crate::desync::{without_sender, DetMessage, Step};
use crate::detthread::{DetThreadId, ThreadView};
use crate::error::{result_view, DesyncError, DesyncErrorView, RecvErrorDef};
use crate::laws::{
    handed_out, is_threaded, is_wait, law_expected_receive_is_a_wait, law_idle_operation_is_a_wait,
    law_replay_delivers_record, lemma_no_match, lemma_stash, polled_from, recorded_from, repeats,
    run_polled, same_queues, Got, Wait,
};
use crate::mode::RRMode;
use crate::recorder::{after_write, write_gave, LogView};
use crate::recordlog::{
    entry_of, outcome_of, EntryView, MetadataView, SelectEvent, SelectEventView, TivoEventView,
};
use crate::rr::{
    expected_recv, is_other, name_timeout, recorded_recv, recv_event, recv_expected, recv_relation,
    recv_step, replayed_message, replayed_recv, settled, stash, ChannelIdView, Poll,
    RecvRecordReplay, Wire,
};
use crate::thread_map::{dequeue, keep, queue_of};

verus! {

/// What was received while recording, with its sender, seen as of type `U`.
pub open spec fn lift_got<T, U, E: RecvRecordReplay>(
    f: spec_fn(T) -> U,
    got: Result<DetMessage<T>, E>,
) -> Result<(Seq<u32>, U), TivoEventView> {
    match got {
        Ok((id, msg)) => Ok((id@, f(msg))),
        Err(e) => Err(e.err_event()),
    }
}

/// The result of a receive, seen as of type `U`.
pub open spec fn lift_result<T, U, E: RecvRecordReplay>(
    f: spec_fn(T) -> U,
    r: Result<T, E>,
) -> Result<U, TivoEventView> {
    match r {
        Ok(msg) => Ok(f(msg)),
        Err(e) => Err(e.err_event()),
    }
}

/// Messages that are kept, seen as of type `U`.
pub open spec fn lift_queues<T, U>(
    f: spec_fn(T) -> U,
    queues: Map<Seq<u32>, Seq<T>>,
) -> Map<Seq<u32>, Seq<U>> {
    queues.map_values(|queue: Seq<T>| queue.map_values(f))
}

/// An attempt to receive, seen as of type `U`.
pub open spec fn lift_poll<T, U>(f: spec_fn(T) -> U, poll: Poll<T>) -> Poll<U> {
    match poll {
        Ok((id, msg)) => Ok((id, f(msg))),
        Err(e) => Err(e),
    }
}

/// Attempts to receive, seen as of type `U`.
pub open spec fn lift_polls<T, U>(f: spec_fn(T) -> U, polls: Seq<Poll<T>>) -> Seq<Poll<U>> {
    polls.map_values(|poll: Poll<T>| lift_poll(f, poll))
}

/// The outcome of a wait, seen as of type `U`.
pub open spec fn lift_found<T, U>(
    f: spec_fn(T) -> U,
    found: Result<T, DesyncErrorView>,
) -> Result<U, DesyncErrorView> {
    match found {
        Ok(msg) => Ok(f(msg)),
        Err(e) => Err(e),
    }
}

proof fn lemma_lift_queue<T, U>(
    f: spec_fn(T) -> U,
    queues: Map<Seq<u32>, Seq<T>>,
    sender: Seq<u32>,
)
    ensures
        queue_of(lift_queues(f, queues), sender) == queue_of(queues, sender).map_values(f),
{
    assert(queue_of(lift_queues(f, queues), sender) =~= queue_of(queues, sender).map_values(f));
}

proof fn lemma_lift_stash<T, U>(
    f: spec_fn(T) -> U,
    queues: Map<Seq<u32>, Seq<T>>,
    polls: Seq<Poll<T>>,
)
    ensures
        lift_queues(f, stash(queues, polls)) == stash(lift_queues(f, queues), lift_polls(f, polls)),
    decreases polls.len(),
{
    let lifted = lift_polls(f, polls);
    if polls.len() > 0 {
        let fewer = polls.drop_last();
        lemma_lift_stash(f, queues, fewer);
        assert(lifted.drop_last() =~= lift_polls(f, fewer));
        assert(lifted.last() == lift_poll(f, polls.last()));
        let earlier = stash(queues, fewer);
        if let Ok((id, msg)) = polls.last() {
            lemma_lift_queue(f, earlier, id@);
            let queue = queue_of(earlier, id@);
            assert(queue.push(msg).map_values(f) =~= queue.map_values(f).push(f(msg)));
            assert(lift_queues(f, keep(earlier, id@, msg)) =~= keep(
                lift_queues(f, earlier),
                id@,
                f(msg),
            ));
        }
    }
}

/// A wait is one whatever type its messages are seen as.
proof fn lemma_lift_wait<T, U>(
    f: spec_fn(T) -> U,
    queues: Map<Seq<u32>, Seq<T>>,
    sender: Seq<u32>,
    polls: Seq<Poll<T>>,
    found: Result<T, DesyncErrorView>,
    after: Map<Seq<u32>, Seq<T>>,
)
    requires
        expected_recv(queues, sender, polls, found, after),
    ensures
        expected_recv(
            lift_queues(f, queues),
            sender,
            lift_polls(f, polls),
            lift_found(f, found),
            lift_queues(f, after),
        ),
{
    let lifted = lift_polls(f, polls);
    lemma_lift_queue(f, queues, sender);
    if queue_of(queues, sender).len() > 0 {
        let queue = queue_of(queues, sender);
        assert(queue.drop_first().map_values(f) =~= queue.map_values(f).drop_first());
        assert(lift_queues(f, dequeue(queues, sender)) =~= dequeue(lift_queues(f, queues), sender));
    } else {
        lemma_lift_stash(f, queues, polls);
        lemma_lift_stash(f, queues, polls.drop_last());
        assert(lifted.drop_last() =~= lift_polls(f, polls.drop_last()));
        assert(lifted.last() == lift_poll(f, polls.last()));
        assert forall|i: int| 0 <= i < lifted.len() - 1 implies is_other(
            #[trigger] lifted[i],
            sender,
        ) by {
            assert(is_other(polls[i], sender));
        }
    }
}

/// `entry` records `got` on its channel. Other operations have nothing to tell of a receive.
pub open spec fn is_recorded<U>(
    entry: EntryView,
    got: Option<Result<(Seq<u32>, U), TivoEventView>>,
) -> bool {
    match got {
        Some(Ok((sender, _))) => outcome_of(entry.event) == Some(
            Ok::<Seq<u32>, TivoEventView>(sender),
        ),
        Some(Err(event)) => outcome_of(entry.event) == Some(
            Err::<Seq<u32>, TivoEventView>(event),
        ),
        None => outcome_of(entry.event) is None,
    }
}

/// One operation of a replay: what it received, with the attempts that it made, and what is kept on
/// its channel before and after it.
pub struct Op<U> {
    pub polls: Seq<Poll<U>>,
    pub r: Result<U, TivoEventView>,
    pub before: Map<Seq<u32>, Seq<U>>,
    pub after: Map<Seq<u32>, Seq<U>>,
}

/// The operation follows `entry`: the recorded error is returned, or a message from the recorded
/// sender is waited for and comes. Operations other than receives do not touch what is kept.
pub open spec fn op_follows<U>(entry: EntryView, op: Op<U>) -> bool {
    match outcome_of(entry.event) {
        Some(Ok(sender)) => {
            &&& op.r matches Ok(msg)
            &&& expected_recv(
                op.before,
                sender,
                op.polls,
                Ok::<U, DesyncErrorView>(msg),
                op.after,
            )
        },
        Some(Err(event)) => {
            &&& op.r == Err::<U, TivoEventView>(event)
            &&& op.polls.len() == 0
            &&& op.after == op.before
        },
        None => op.polls.len() == 0 && op.after == op.before,
    }
}

/// The operation as one on the channel of its entry.
pub open spec fn wait_of<U>(entry: EntryView, op: Op<U>) -> Wait<ChannelIdView, DetThreadId, U> {
    Wait {
        channel: entry.chan_id,
        expected: match outcome_of(entry.event) {
            Some(Ok(sender)) => Some(sender),
            _ => None,
        },
        polls: op.polls,
        r: op.r.ok(),
        before: op.before,
        after: op.after,
    }
}

/// An operation that follows its entry is one of a run.
proof fn lemma_op_is_wait<U>(entry: EntryView, op: Op<U>)
    requires
        op_follows(entry, op),
    ensures
        is_wait(wait_of(entry, op)),
{
    let channel = entry.chan_id;
    match outcome_of(entry.event) {
        Some(Ok(sender)) => {
            let r = Ok::<U, DesyncErrorView>(op.r->Ok_0);
            let wait = law_expected_receive_is_a_wait::<ChannelIdView, DetThreadId, U>(
                channel,
                op.before,
                sender,
                op.polls,
                r,
                op.after,
            );
            assert(wait == wait_of(entry, op));
        },
        _ => {
            let idle = law_idle_operation_is_a_wait::<ChannelIdView, DetThreadId, U>(
                channel,
                op.before,
                op.after,
            );
            let wait = wait_of(entry, op);
            assert(op.polls =~= Seq::<Poll<U>>::empty());
            assert forall|sender: Seq<u32>|
                handed_out(wait, sender) + #[trigger] queue_of(wait.after, sender) == queue_of(
                    wait.before,
                    sender,
                ) + polled_from(wait.polls, sender) by {
                assert(handed_out(idle, sender) + queue_of(idle.after, sender) == queue_of(
                    idle.before,
                    sender,
                ) + polled_from(idle.polls, sender));
                assert(handed_out(wait, sender) =~= handed_out(idle, sender));
            }
        },
    }
}

/// All operations of a replay, each on the channel of its entry.
pub open spec fn waits_of<U>(log: Seq<EntryView>, ops: Seq<Op<U>>) -> Seq<
    Wait<ChannelIdView, DetThreadId, U>,
> {
    Seq::new(ops.len(), |i: int| wait_of(log[i], ops[i]))
}

/// What was received while recording, on the channel of its entry.
pub open spec fn got_of<U>(
    entry: EntryView,
    got: Option<Result<(Seq<u32>, U), TivoEventView>>,
) -> Got<ChannelIdView, DetThreadId, U> {
    Got {
        channel: entry.chan_id,
        message: match got {
            Some(Ok((sender, msg))) => Some((sender, msg)),
            _ => None,
        },
    }
}

/// All that was received while recording, each on the channel of its entry.
pub open spec fn record_of<U>(
    log: Seq<EntryView>,
    gots: Seq<Option<Result<(Seq<u32>, U), TivoEventView>>>,
) -> Seq<Got<ChannelIdView, DetThreadId, U>> {
    Seq::new(gots.len(), |i: int| got_of(log[i], gots[i]))
}

/// A message without its sender, or an error.
pub open spec fn bare<U>(got: Result<(Seq<u32>, U), TivoEventView>) -> Result<U, TivoEventView> {
    match got {
        Ok((_, msg)) => Ok(msg),
        Err(event) => Err(event),
    }
}

/// A replay repeats the record of a thread: its receives of all kinds and its selects, in any order
/// among each other and among its other operations, on any number of channels, over one log. Where
/// `log` is what the thread wrote while `gots` came, every operation of the replay follows its entry
/// of that log, each channel keeps its own messages, nothing at first, and on each channel each sender
/// sends the same messages in the same order again (`streams`), the replay gives the same messages
/// and the same errors as the record, however the messages of different senders overtake each other.
pub proof fn law_replay_repeats_record<U>(
    log: Seq<EntryView>,
    gots: Seq<Option<Result<(Seq<u32>, U), TivoEventView>>>,
    ops: Seq<Op<U>>,
    streams: spec_fn(ChannelIdView, Seq<u32>) -> Seq<U>,
)
    requires
        log.len() == gots.len(),
        log.len() == ops.len(),
        forall|i: int| 0 <= i < log.len() ==> is_recorded(log[i], #[trigger] gots[i]),
        forall|i: int| 0 <= i < log.len() ==> op_follows(log[i], #[trigger] ops[i]),
        is_threaded(waits_of(log, ops)),
        forall|channel: ChannelIdView, sender: Seq<u32>|
            (#[trigger] recorded_from(record_of(log, gots), channel, sender)).is_prefix_of(
                streams(channel, sender),
            ),
        forall|channel: ChannelIdView, sender: Seq<u32>|
            (#[trigger] run_polled(waits_of(log, ops), channel, sender)).is_prefix_of(
                streams(channel, sender),
            ),
    ensures
        forall|i: int|
            0 <= i < ops.len() && gots[i] is Some ==> (#[trigger] ops[i]).r == bare(gots[i]->0),
{
    let run = waits_of(log, ops);
    let record = record_of(log, gots);
    assert forall|i: int| 0 <= i < run.len() implies is_wait(#[trigger] run[i]) && repeats(
        record[i],
        run[i],
    ) by {
        lemma_op_is_wait(log[i], ops[i]);
        assert(is_recorded(log[i], gots[i]));
    }
    law_replay_delivers_record(record, run, streams);
    assert forall|i: int| 0 <= i < ops.len() && gots[i] is Some implies (#[trigger] ops[i]).r
        == bare(gots[i]->0) by {
        assert(op_follows(log[i], ops[i]));
        assert(is_recorded(log[i], gots[i]));
        assert(record[i] == got_of(log[i], gots[i]));
        assert(run[i] == wait_of(log[i], ops[i]));
        if let Some(Ok((_, msg))) = gots[i] {
            assert(record[i].message is Some);
            assert(run[i].r == Some(msg));
        }
    }
}

/// A receive that is recorded hands on what came, and is in the log, behind all that was there: once
/// if the log can be written.
pub proof fn law_recorded_receive<T, U, E: RecvRecordReplay>(
    f: spec_fn(T) -> U,
    metadata: MetadataView,
    got: Result<DetMessage<T>, E>,
    log: LogView,
    r: Result<Result<T, E>, DesyncErrorView>,
    log_after: LogView,
)
    requires
        recorded_recv(metadata, got, log, r, log_after),
    ensures
        write_gave(log, entry_of(recv_event(got), metadata), r is Ok),
        r is Ok ==> {
            &&& r == Ok::<Result<T, E>, DesyncErrorView>(without_sender(got))
            &&& log_after.written == log.written.push(entry_of(recv_event(got), metadata))
            &&& is_recorded(log_after.written.last(), Some(lift_got(f, got)))
            &&& log_after.written.last().chan_id == metadata.id
        },
{
    match got {
        Ok((sender, _)) => {
            let e: E = arbitrary();
            E::lemma_decode(sender@, e);
        },
        Err(e) => {
            E::lemma_decode(Seq::<u32>::empty(), e);
        },
    }
    E::lemma_outcome(recv_event(got));
}

/// What was received while recording is what the replay of its entry asks for: a recorded error
/// is returned as it was, and for a recorded message the replay waits for a message from the same
/// sender.
pub proof fn law_replay_follows_log<T, E: RecvRecordReplay>(
    metadata: MetadataView,
    got: Result<DetMessage<T>, E>,
    later: Seq<EntryView>,
    polled: spec_fn(Poll<T>) -> bool,
    queues: Map<Seq<u32>, Seq<T>>,
    r: Result<Result<T, E>, DesyncErrorView>,
    after: Map<Seq<u32>, Seq<T>>,
)
    requires
        replayed_recv(
            metadata,
            polled,
            seq![entry_of(recv_event(got), metadata)] + later,
            queues,
            r,
            after,
        ),
    ensures
        match got {
            Ok((sender, _)) => replayed_message(
                polled,
                sender@,
                metadata.message_type,
                queues,
                r,
                after,
            ),
            Err(e) => r == Ok::<Result<T, E>, DesyncErrorView>(Err(e)) && after == queues,
        },
{
    let entries = seq![entry_of(recv_event(got), metadata)] + later;
    assert(entries[0] == entry_of(recv_event(got), metadata));
    match got {
        Ok((sender, _)) => {
            let e: E = arbitrary();
            E::lemma_decode(sender@, e);
        },
        Err(e) => {
            E::lemma_decode(Seq::<u32>::empty(), e);
        },
    }
}

/// A receive that was replayed without a desynchronization took the next entry of its log, which is
/// one of its channel, and followed it, with some attempts that its channel allows.
pub proof fn law_replayed_receive<T, U, E: RecvRecordReplay>(
    f: spec_fn(T) -> U,
    metadata: MetadataView,
    direct: spec_fn(Result<DetMessage<T>, E>) -> bool,
    polled: spec_fn(Poll<T>) -> bool,
    log: LogView,
    before: Map<Seq<u32>, Seq<T>>,
    r: Result<T, E>,
    log_after: LogView,
    after: Map<Seq<u32>, Seq<T>>,
) -> (out: (Op<U>, Seq<Poll<T>>))
    requires
        recv_relation(
            RRMode::Replay,
            metadata,
            direct,
            polled,
            log,
            before,
            Ok::<Result<T, E>, DesyncErrorView>(r),
            log_after,
            after,
        ),
    ensures
        log.remaining.len() > 0,
        log_after.remaining == log.remaining.drop_first(),
        log.remaining[0].chan_id == metadata.id,
        op_follows(log.remaining[0], out.0),
        out.0.r == lift_result(f, r),
        out.0.before == lift_queues(f, before),
        out.0.after == lift_queues(f, after),
        out.0.polls == lift_polls(f, out.1),
        forall|i: int| 0 <= i < out.1.len() ==> polled(#[trigger] out.1[i]),
{
    let entry = log.remaining[0];
    E::lemma_outcome(entry.event);
    match E::decode(entry.event) {
        Some(Ok(sender)) => {
            let found = choose|found: Result<T, DesyncErrorView>|
                {
                    &&& #[trigger] recv_expected(before, sender, polled, found, after)
                    &&& Ok::<Result<T, E>, DesyncErrorView>(r) == name_timeout::<T, E>(
                        found,
                        entry.message_type,
                    )
                };
            let polls = choose|polls: Seq<Poll<T>>|
                {
                    &&& #[trigger] expected_recv(before, sender, polls, found, after)
                    &&& forall|i: int| 0 <= i < polls.len() ==> polled(#[trigger] polls[i])
                };
            lemma_lift_wait(f, before, sender, polls, found, after);
            (
                Op {
                    polls: lift_polls(f, polls),
                    r: lift_result(f, r),
                    before: lift_queues(f, before),
                    after: lift_queues(f, after),
                },
                polls,
            )
        },
        _ => {
            let polls = Seq::<Poll<T>>::empty();
            assert(lift_polls(f, polls) =~= Seq::<Poll<U>>::empty());
            (
                Op {
                    polls: lift_polls(f, polls),
                    r: lift_result(f, r),
                    before: lift_queues(f, before),
                    after: lift_queues(f, after),
                },
                polls,
            )
        },
    }
}

/// A receive of a recording thread that goes on without a desynchronization gave what its channel
/// gave, without the sender, and added the entry that records it to the log of the thread.
pub proof fn law_recorded_receive_step<T, U, E: RecvRecordReplay>(
    f: spec_fn(T) -> U,
    metadata: MetadataView,
    wire: Wire<T, E>,
    thread: ThreadView,
    queues: Map<Seq<u32>, Seq<T>>,
    v: Result<T, E>,
    thread_after: ThreadView,
    after: Map<Seq<u32>, Seq<T>>,
) -> (got: Result<DetMessage<T>, E>)
    requires
        recv_step(
            RRMode::Record,
            metadata,
            wire,
            thread,
            queues,
            Step::Done(v),
            thread_after,
            after,
        ),
        !thread_after.desynced,
    ensures
        (wire.direct)(got),
        v == without_sender(got),
        lift_result(f, v) == bare(lift_got(f, got)),
        thread_after.log.written == thread.log.written.push(
            entry_of(recv_event(got), metadata),
        ),
        is_recorded(thread_after.log.written.last(), Some(lift_got(f, got))),
        thread_after.log.written.last().chan_id == metadata.id,
        after == queues,
{
    let (outcome, log, mid) = choose|
        outcome: Result<Result<T, E>, DesyncErrorView>,
        log: LogView,
        mid: Map<Seq<u32>, Seq<T>>,
    |
        {
            &&& recv_relation(
                RRMode::Record,
                metadata,
                wire.direct,
                wire.polled,
                thread.log,
                queues,
                outcome,
                log,
                mid,
            )
            &&& #[trigger] settled(
                outcome,
                wire.direct,
                thread.with_log(log),
                mid,
                Step::Done(v),
                thread_after,
                after,
            )
        };
    let got = choose|got: Result<DetMessage<T>, E>|
        (wire.direct)(got) && #[trigger] recorded_recv(metadata, got, thread.log, outcome, log);
    law_recorded_receive(f, metadata, got, thread.log, outcome, log);
    got
}

/// A receive of a replaying thread that goes on without a desynchronization took the next entry of
/// the thread's log and followed it.
pub proof fn law_replayed_receive_step<T, U, E: RecvRecordReplay>(
    f: spec_fn(T) -> U,
    metadata: MetadataView,
    wire: Wire<T, E>,
    thread: ThreadView,
    queues: Map<Seq<u32>, Seq<T>>,
    v: Result<T, E>,
    thread_after: ThreadView,
    after: Map<Seq<u32>, Seq<T>>,
) -> (out: (Op<U>, Seq<Poll<T>>))
    requires
        recv_step(
            RRMode::Replay,
            metadata,
            wire,
            thread,
            queues,
            Step::Done(v),
            thread_after,
            after,
        ),
        !thread_after.desynced,
    ensures
        thread.log.remaining.len() > 0,
        thread_after.log.remaining == thread.log.remaining.drop_first(),
        thread.log.remaining[0].chan_id == metadata.id,
        op_follows(thread.log.remaining[0], out.0),
        out.0.r == lift_result(f, v),
        out.0.before == lift_queues(f, queues),
        out.0.after == lift_queues(f, after),
        out.0.polls == lift_polls(f, out.1),
        forall|i: int| 0 <= i < out.1.len() ==> (wire.polled)(#[trigger] out.1[i]),
{
    let (outcome, log, mid) = choose|
        outcome: Result<Result<T, E>, DesyncErrorView>,
        log: LogView,
        mid: Map<Seq<u32>, Seq<T>>,
    |
        {
            &&& recv_relation(
                RRMode::Replay,
                metadata,
                wire.direct,
                wire.polled,
                thread.log,
                queues,
                outcome,
                log,
                mid,
            )
            &&& #[trigger] settled(
                outcome,
                wire.direct,
                thread.with_log(log),
                mid,
                Step::Done(v),
                thread_after,
                after,
            )
        };
    law_replayed_receive(
        f,
        metadata,
        wire.direct,
        wire.polled,
        thread.log,
        queues,
        v,
        log,
        after,
    )
}

/// A select that is recorded hands on what came, and is in the log, behind all that was there: once,
/// with its index, if the log can be written.
pub proof fn law_recorded_select<T, U>(
    f: spec_fn(T) -> U,
    metadata: MetadataView,
    index: usize,
    got: Result<DetMessage<T>, RecvErrorDef>,
    thread: ThreadView,
    r: Result<Result<T, RecvErrorDef>, DesyncErrorView>,
    thread_after: ThreadView,
) -> (ok: bool)
    requires
        recorded_select(metadata, index, got, thread, r, thread_after),
    ensures
        r == Ok::<Result<T, RecvErrorDef>, DesyncErrorView>(without_sender(got)),
        ({
            let event = TivoEventView::CrossbeamSelect(select_event(got, index));
            let entry = entry_of(event, metadata);
            &&& write_gave(thread.log, entry, ok)
            &&& thread_after == thread.with_log(after_write(thread.log, entry, ok))
            &&& is_recorded(
                entry,
                Some(
                    match got {
                        Ok((id, msg)) => Ok((id@, f(msg))),
                        Err(_) => Err(event),
                    },
                ),
            )
        }),
{
    let event = TivoEventView::CrossbeamSelect(select_event(got, index));
    let entry = entry_of(event, metadata);
    choose|ok: bool| #[trigger]
        write_gave(thread.log, entry, ok) && thread_after == thread.with_log(
            after_write(thread.log, entry, ok),
        )
}

/// The same messages are kept whatever type they are seen as.
proof fn lemma_lift_same_queues<T, U>(
    f: spec_fn(T) -> U,
    a: Map<Seq<u32>, Seq<T>>,
    b: Map<Seq<u32>, Seq<T>>,
)
    requires
        same_queues(a, b),
    ensures
        same_queues(lift_queues(f, a), lift_queues(f, b)),
{
    assert forall|sender: Seq<u32>| #[trigger]
        queue_of(lift_queues(f, a), sender) == queue_of(lift_queues(f, b), sender) by {
        lemma_lift_queue(f, a, sender);
        lemma_lift_queue(f, b, sender);
        assert(queue_of(a, sender) == queue_of(b, sender));
    }
}

/// A query for a message from `sender` that finds one, and the wait that then takes it, are together
/// one wait.
proof fn lemma_asked_and_taken<T>(
    queues: Map<Seq<u32>, Seq<T>>,
    sender: Seq<u32>,
    polled: spec_fn(Poll<T>) -> bool,
    asked: Map<Seq<u32>, Seq<T>>,
    msg: T,
    after: Map<Seq<u32>, Seq<T>>,
) -> (out: (Seq<Poll<T>>, Map<Seq<u32>, Seq<T>>))
    requires
        polled_entry(queues, sender, polled, Ok::<bool, DesyncErrorView>(true), asked),
        recv_expected(asked, sender, polled, Ok::<T, DesyncErrorView>(msg), after),
    ensures
        expected_recv(queues, sender, out.0, Ok::<T, DesyncErrorView>(msg), out.1),
        same_queues(out.1, after),
        forall|i: int| 0 <= i < out.0.len() ==> polled(#[trigger] out.0[i]),
{
    let taken = choose|polls: Seq<Poll<T>>|
        {
            &&& #[trigger] expected_recv(
                asked,
                sender,
                polls,
                Ok::<T, DesyncErrorView>(msg),
                after,
            )
            &&& forall|i: int| 0 <= i < polls.len() ==> polled(#[trigger] polls[i])
        };
    if queue_of(queues, sender).len() > 0 {
        (taken, after)
    } else {
        let (found, mid) = choose|found: Result<T, DesyncErrorView>, mid: Map<Seq<u32>, Seq<T>>|
            {
                &&& #[trigger] recv_expected(queues, sender, polled, found, mid)
                &&& match found {
                    Ok(msg) => asked == keep(mid, sender, msg),
                    Err(_) => false,
                }
            };
        let polls = choose|polls: Seq<Poll<T>>|
            {
                &&& #[trigger] expected_recv(queues, sender, polls, found, mid)
                &&& forall|i: int| 0 <= i < polls.len() ==> polled(#[trigger] polls[i])
            };
        let earlier = polls.drop_last();
        lemma_stash(queues, earlier, sender);
        assert forall|i: int| 0 <= i < earlier.len() implies is_other(
            #[trigger] earlier[i],
            sender,
        ) by {
            assert(earlier[i] == polls[i]);
        }
        lemma_no_match(earlier, sender);
        assert(queue_of(mid, sender) =~= Seq::<T>::empty());
        assert(queue_of(asked, sender) =~= seq![found->Ok_0]);
        assert forall|from: Seq<u32>| #[trigger] queue_of(mid, from) == queue_of(after, from) by {
            if from == sender {
                assert(queue_of(after, from) =~= Seq::<T>::empty());
            }
        }
        (polls, mid)
    }
}

/// A select that was replayed without a desynchronization follows the entry that it took, over both
/// of its calls: the query whether the logged message is there, which keeps it if it has to take it
/// off the channel, and the completion, which takes it. `before`, `asked` and `after` are the
/// receiver before, between and after them.
pub proof fn law_replayed_select<T, U>(
    f: spec_fn(T) -> U,
    entry: EntryView,
    thread: ThreadView,
    before: Receiver<T>,
    asked: Receiver<T>,
    r: Result<T, RecvErrorDef>,
    after: Receiver<T>,
) -> (out: (Op<U>, Seq<Poll<T>>))
    requires
        entry.event is CrossbeamSelect,
        asked.same_channel(before),
        match outcome_of(entry.event) {
            Some(Ok(sender)) => before.poll_relation(
                thread,
                sender,
                Ok::<bool, DesyncErrorView>(true),
                &asked,
            ),
            _ => asked.queues() == before.queues(),
        },
        replayed_completion(
            entry.event->CrossbeamSelect_0,
            entry.channel_variant,
            entry.chan_id,
            thread,
            asked,
            Ok::<Result<T, RecvErrorDef>, DesyncErrorView>(r),
            after,
        ),
    ensures
        entry.chan_id == before.metadata@.id,
        op_follows(entry, out.0),
        out.0.r == match r {
            Ok(msg) => Ok::<U, TivoEventView>(f(msg)),
            Err(_) => Err(entry.event),
        },
        out.0.before == lift_queues(f, before.queues()),
        same_queues(out.0.after, lift_queues(f, after.queues())),
        out.0.polls == lift_polls(f, out.1),
        forall|i: int|
            0 <= i < out.1.len() ==> (before.recv_wire(thread).polled)(#[trigger] out.1[i]),
{
    let polled = before.recv_wire(thread).polled;
    assert(asked.recv_wire(thread).polled =~= polled);
    let queues = before.queues();
    let lifted = match r {
        Ok(msg) => Ok::<U, TivoEventView>(f(msg)),
        Err(_) => Err(entry.event),
    };
    match outcome_of(entry.event) {
        Some(Ok(sender)) => {
            let found = choose|found: Result<T, DesyncErrorView>|
                {
                    &&& #[trigger] recv_expected(
                        asked.queues(),
                        sender,
                        polled,
                        found,
                        after.queues(),
                    )
                    &&& Ok::<Result<T, RecvErrorDef>, DesyncErrorView>(r) == match found {
                        Ok(msg) => Ok(Ok::<T, RecvErrorDef>(msg)),
                        Err(e) => Err(e),
                    }
                };
            let msg = found->Ok_0;
            let (polls, left) = lemma_asked_and_taken(
                queues,
                sender,
                polled,
                asked.queues(),
                msg,
                after.queues(),
            );
            lemma_lift_wait(f, queues, sender, polls, found, left);
            lemma_lift_same_queues(f, left, after.queues());
            (
                Op {
                    polls: lift_polls(f, polls),
                    r: lifted,
                    before: lift_queues(f, queues),
                    after: lift_queues(f, left),
                },
                polls,
            )
        },
        _ => {
            let polls = Seq::<Poll<T>>::empty();
            assert(lift_polls(f, polls) =~= Seq::<Poll<U>>::empty());
            lemma_lift_same_queues(f, queues, after.queues());
            (
                Op {
                    polls: lift_polls(f, polls),
                    r: lifted,
                    before: lift_queues(f, queues),
                    after: lift_queues(f, queues),
                },
                polls,
            )
        },
    }
}

/// The two calls of a replayed select, seen through what they state: the select took the next entry
/// of the thread's log and, where a message is logged, asked the receiver at the logged index for it
/// (`polls` tells what such a query may give). The completion on that receiver then follows
/// the entry.
pub proof fn law_replayed_select_step<T, U, O>(
    f: spec_fn(T) -> U,
    receivers: Seq<usize>,
    selects: spec_fn(usize, O) -> bool,
    polls: spec_fn(usize, Seq<u32>, Result<bool, DesyncError>) -> bool,
    completes: spec_fn(O, SelectedMessage<T>) -> bool,
    thread: ThreadView,
    inner: SelectedOperationImpl<O>,
    mid: ThreadView,
    before: Receiver<T>,
    asked: Receiver<T>,
    r: Result<T, RecvErrorDef>,
    thread_after: ThreadView,
    after: Receiver<T>,
) -> (out: (Op<U>, Seq<Poll<T>>))
    requires
        !thread.desynced,
        select_relation(
            RRMode::Replay,
            receivers,
            selects,
            polls,
            thread,
            Selecting::Selected(inner),
            mid,
        ),
        asked.same_channel(before),
        match inner {
            SelectedOperationImpl::Replay(SelectEvent::Success { selected_index, .. }, _, _) => {
                forall|sender: Seq<u32>, found: Result<bool, DesyncError>| #[trigger]
                    polls(selected_index, sender, found) ==> before.poll_relation(
                        thread,
                        sender,
                        result_view(found),
                        &asked,
                    )
            },
            _ => asked.queues() == before.queues(),
        },
        completion(
            inner,
            completes,
            mid,
            asked,
            Ok::<Result<T, RecvErrorDef>, DesyncErrorView>(r),
            thread_after,
            after,
        ),
    ensures
        thread.log.remaining.len() > 0,
        thread_after.log.remaining == thread.log.remaining.drop_first(),
        thread.log.remaining[0].chan_id == before.metadata@.id,
        op_follows(thread.log.remaining[0], out.0),
        out.0.r == match r {
            Ok(msg) => Ok::<U, TivoEventView>(f(msg)),
            Err(_) => Err(thread.log.remaining[0].event),
        },
        out.0.before == lift_queues(f, before.queues()),
        same_queues(out.0.after, lift_queues(f, after.queues())),
        out.0.polls == lift_polls(f, out.1),
        forall|i: int|
            0 <= i < out.1.len() ==> (before.recv_wire(thread).polled)(#[trigger] out.1[i]),
{
    let entry = thread.log.remaining[0];
    let event = entry.event->CrossbeamSelect_0;
    if let SelectEventView::Success { sender_thread, selected_index } = event {
        let found = choose|found: Result<bool, DesyncError>|
            {
                &&& polls(selected_index, sender_thread, found)
                &&& #[trigger] select_polled(
                    found,
                    event,
                    entry,
                    Selecting::<O>::Selected(inner),
                )
            };
        assert(before.poll_relation(thread, sender_thread, result_view(found), &asked));
    }
    assert(asked.recv_wire(mid).polled =~= asked.recv_wire(thread).polled);
    law_replayed_select(f, entry, thread, before, asked, r, after)
}

} // verus!
