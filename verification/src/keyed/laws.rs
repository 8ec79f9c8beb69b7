//! Properties of the keyed log.

use vstd::prelude::*;
use crate::error::RecvErrorDef;
use crate::keyed::channel::Receiver;
use crate::keyed::flow::{
    awaited, keyed_event, keyed_message, keyed_recv_step, keyed_replay, tag_of, tagged_entry,
    wait_view, KeyedPoll, KeyedStep, KeyedWire, Message, RecordReplayRecv, Tag,
};
use crate::keyed::record_replay::{
    indices_of, lookup, ChannelIdView, DesyncError, DesyncErrorView, IndicesView, LogEntryView,
    LoggedView,
};
use crate::keyed::select::{replayed_completion, replayed_outcome, select_event};
use crate::keyed::send::{replay_check, KeyedSender};
use crate::keyed::thread::{ContextView, MaybeId};
use crate::laws::{
    is_run, is_wait, law_expected_receive_is_a_wait, law_idle_operation_is_a_wait,
    law_replay_delivers_record, recorded_from, repeats, run_polled, Got, Wait,
};
use crate::mode::RRMode;
use crate::rr::{expected_recv, recv_expected};

verus! {

/// Every entry of a log that can be read is found under its key, on the channel that it was
/// recorded for.
pub proof fn law_logged_entry_is_found(entries: Seq<LogEntryView>, i: int, thread: Seq<u32>)
    requires
        indices_of(entries) is Some,
        0 <= i < entries.len(),
        entries[i].current_thread == Some(thread),
    ensures
        lookup(
            indices_of(entries)->0,
            thread,
            entries[i].event_id,
            Some(entries[i].channel),
            Some(entries[i].chan_id),
        ) == Ok::<LoggedView, DesyncErrorView>(
            LoggedView {
                event: entries[i].event,
                flavor: entries[i].channel,
                id: entries[i].chan_id,
            },
        ),
    decreases entries.len(),
{
    let earlier = entries.drop_last();
    if i < entries.len() - 1 {
        assert(earlier[i] == entries[i]);
        law_logged_entry_is_found(earlier, i, thread);
    }
}

/// Nothing is found that was not logged.
pub proof fn law_found_entry_was_logged(
    entries: Seq<LogEntryView>,
    thread: Seq<u32>,
    event_id: u32,
) -> (i: int)
    requires
        indices_of(entries) is Some,
        (indices_of(entries)->0).contains_key((thread, event_id)),
    ensures
        0 <= i < entries.len(),
        entries[i].current_thread == Some(thread),
        entries[i].event_id == event_id,
        (indices_of(entries)->0)[(thread, event_id)] == (LoggedView {
            event: entries[i].event,
            flavor: entries[i].channel,
            id: entries[i].chan_id,
        }),
    decreases entries.len(),
{
    let n = entries.len() - 1;
    let last = entries.last();
    if last.current_thread == Some(thread) && last.event_id == event_id {
        n
    } else {
        let i = law_found_entry_was_logged(entries.drop_last(), thread, event_id);
        assert(entries.drop_last()[i] == entries[i]);
        i
    }
}

/// A receive that was logged is replayed as it was: its error is returned, or a message from the
/// same sender is waited for.
pub proof fn law_logged_receive_is_replayed<T, E: RecordReplayRecv>(
    tag: Tag,
    got: Result<Message<T>, E>,
    polled: spec_fn(KeyedPoll<T>) -> bool,
    thread: ContextView,
    queues: Map<Option<Seq<u32>>, Seq<T>>,
    r: Result<Result<T, E>, DesyncErrorView>,
    thread_after: ContextView,
    after: Map<Option<Seq<u32>>, Seq<T>>,
)
    requires
        keyed_replay(
            tag,
            polled,
            Ok::<LoggedView, DesyncErrorView>(
                LoggedView { event: keyed_event(got), flavor: tag.flavor, id: tag.id },
            ),
            thread,
            queues,
            r,
            thread_after,
            after,
        ),
    ensures
        match got {
            Ok((sender, _)) => keyed_message(
                polled,
                sender@,
                thread,
                queues,
                r,
                thread_after,
                after,
            ),
            Err(e) => {
                &&& r == Ok::<Result<T, E>, DesyncErrorView>(Err(e))
                &&& thread_after == thread.next_event()
                &&& after == queues
            },
        },
{
    match got {
        Ok((sender, _)) => {
            let e: E = arbitrary();
            E::lemma_decode(sender@, e);
        },
        Err(e) => {
            E::lemma_decode(None, e);
        },
    }
}

/// A send that was logged passes the check of a replay that meets its entry.
pub proof fn law_logged_send_is_replayed(
    kind: KeyedSender,
    tag: Tag,
    entries: Seq<LogEntryView>,
    i: int,
    thread: ContextView,
)
    requires
        indices_of(entries) is Some,
        0 <= i < entries.len(),
        thread.det_id is Some,
        entries[i] == tagged_entry(thread, kind.event(), tag),
    ensures
        replay_check(kind, tag, indices_of(entries)->0, thread) is None,
{
    law_logged_entry_is_found(entries, i, thread.det_id->0);
}

/// A log can be read if each thread counted its events up.
pub proof fn law_counted_log_can_be_read(entries: Seq<LogEntryView>)
    requires
        forall|i: int, j: int|
            #![trigger entries[i], entries[j]]
            0 <= i < j < entries.len() && entries[i].current_thread == entries[j].current_thread
                ==> entries[i].event_id < entries[j].event_id,
    ensures
        indices_of(entries) is Some,
    decreases entries.len(),
{
    if entries.len() > 0 {
        let earlier = entries.drop_last();
        let last = entries.last();
        assert forall|i: int, j: int|
            #![trigger earlier[i], earlier[j]]
            0 <= i < j < earlier.len() && earlier[i].current_thread
                == earlier[j].current_thread implies earlier[i].event_id < earlier[j].event_id by {
            assert(earlier[i] == entries[i] && earlier[j] == entries[j]);
        }
        law_counted_log_can_be_read(earlier);
        if let Some(thread) = last.current_thread {
            if (indices_of(earlier)->0).contains_key((thread, last.event_id)) {
                let i = law_found_entry_was_logged(earlier, thread, last.event_id);
                assert(earlier[i] == entries[i]);
                assert(entries[entries.len() - 1] == last);
                assert(false);
            }
        }
    }
}

/// A receive counts at most one event, and never touches the id of its thread.
pub proof fn law_receive_counts_one_event<T, E: RecordReplayRecv>(
    mode: RRMode,
    tag: Tag,
    indices: IndicesView,
    wire: KeyedWire<T, E>,
    thread: ContextView,
    queues: Map<Option<Seq<u32>>, Seq<T>>,
    r: KeyedStep<Result<T, E>>,
    entry: Option<LogEntryView>,
    thread_after: ContextView,
    after: Map<Option<Seq<u32>>, Seq<T>>,
)
    requires
        keyed_recv_step(mode, tag, indices, wire, thread, queues, r, entry, thread_after, after),
        thread.event_id < u32::MAX,
    ensures
        thread_after == (ContextView {
            event_id: thread_after.event_id,
            desynced: thread_after.desynced,
            ..thread
        }),
        thread.event_id <= thread_after.event_id <= thread.event_id + 1,
        thread.desynced ==> thread_after.desynced,
        mode != RRMode::NoRR && r is Done ==> thread_after.event_id == thread.event_id + 1,
        mode == RRMode::NoRR ==> thread_after == thread,
{
}

/// What was received while recording on the channel of `tag`.
pub open spec fn keyed_got<T, E>(tag: Tag, got: Result<Message<T>, E>) -> Got<
    ChannelIdView,
    MaybeId,
    T,
> {
    Got {
        channel: tag.id,
        message: match got {
            Ok((id, msg)) => Some((id@, msg)),
            Err(_) => None,
        },
    }
}

/// A receive that meets the entry of `got` is an operation of a run on its channel, with some
/// attempts that the channel allows. Without a desynchronization it repeats what was recorded.
pub proof fn law_keyed_receive_is_a_wait<T, E: RecordReplayRecv>(
    tag: Tag,
    got: Result<Message<T>, E>,
    polled: spec_fn(KeyedPoll<T>) -> bool,
    thread: ContextView,
    queues: Map<Option<Seq<u32>>, Seq<T>>,
    r: Result<Result<T, E>, DesyncErrorView>,
    thread_after: ContextView,
    after: Map<Option<Seq<u32>>, Seq<T>>,
) -> (wait: Wait<ChannelIdView, MaybeId, T>)
    requires
        keyed_replay(
            tag,
            polled,
            Ok::<LoggedView, DesyncErrorView>(
                LoggedView { event: keyed_event(got), flavor: tag.flavor, id: tag.id },
            ),
            thread,
            queues,
            r,
            thread_after,
            after,
        ),
    ensures
        is_wait(wait),
        wait.channel == tag.id,
        wait.before == queues,
        wait.after == after,
        wait.r == match r {
            Ok(Ok(msg)) => Some(msg),
            _ => None,
        },
        r is Ok ==> repeats(keyed_got(tag, got), wait),
        got matches Err(e) ==> r == Ok::<Result<T, E>, DesyncErrorView>(Err(e)),
        forall|i: int| 0 <= i < wait.polls.len() ==> polled(#[trigger] wait.polls[i]),
{
    law_logged_receive_is_replayed(tag, got, polled, thread, queues, r, thread_after, after);
    match got {
        Ok((id, _)) => {
            let found = choose|found: Result<T, DesyncError>|
                {
                    &&& crate::keyed::flow::is_wait(found)
                    &&& recv_expected(queues, id@, polled, wait_view(found), after)
                    &&& #[trigger] awaited(found, thread, r, thread_after)
                };
            let polls = choose|polls: Seq<KeyedPoll<T>>|
                {
                    &&& #[trigger] expected_recv(queues, id@, polls, wait_view(found), after)
                    &&& forall|i: int| 0 <= i < polls.len() ==> polled(#[trigger] polls[i])
                };
            law_expected_receive_is_a_wait(tag.id, queues, id@, polls, wait_view(found), after)
        },
        Err(_) => law_idle_operation_is_a_wait(tag.id, queues, after),
    }
}

/// The completion of a replayed select on its receiver is an operation of a run, with some attempts
/// that the channel allows. Without a desynchronization it repeats what was recorded.
pub proof fn law_keyed_select_is_a_wait<T>(
    got: Result<Message<T>, RecvErrorDef>,
    index: usize,
    thread: ContextView,
    before: Receiver<T>,
    r: Result<Result<T, RecvErrorDef>, DesyncErrorView>,
    thread_after: ContextView,
    after: Receiver<T>,
) -> (wait: Wait<ChannelIdView, MaybeId, T>)
    requires
        replayed_completion(
            select_event(got, index),
            tag_of(before.metadata).flavor,
            tag_of(before.metadata).id,
            thread,
            before,
            r,
            thread_after,
            after,
        ),
    ensures
        is_wait(wait),
        wait.channel == tag_of(before.metadata).id,
        wait.before == before.queues(),
        wait.after == after.queues(),
        wait.r == match r {
            Ok(Ok(msg)) => Some(msg),
            _ => None,
        },
        r is Ok ==> repeats(keyed_got(tag_of(before.metadata), got), wait),
        got matches Err(e) ==> r == Ok::<Result<T, RecvErrorDef>, DesyncErrorView>(Err(e)),
        forall|i: int|
            0 <= i < wait.polls.len() ==> before.second_polls(thread)(#[trigger] wait.polls[i]),
{
    let id = tag_of(before.metadata).id;
    let queues = before.queues();
    let left = after.queues();
    match got {
        Ok((sender, _)) => {
            let polled = before.second_polls(thread);
            let found = choose|found: Result<T, DesyncError>|
                {
                    &&& crate::keyed::flow::is_wait(found)
                    &&& recv_expected(queues, sender@, polled, wait_view(found), left)
                    &&& #[trigger] replayed_outcome(found, thread, r, thread_after)
                };
            let polls = choose|polls: Seq<KeyedPoll<T>>|
                {
                    &&& #[trigger] expected_recv(queues, sender@, polls, wait_view(found), left)
                    &&& forall|i: int| 0 <= i < polls.len() ==> polled(#[trigger] polls[i])
                };
            law_expected_receive_is_a_wait(id, queues, sender@, polls, wait_view(found), left)
        },
        Err(_) => law_idle_operation_is_a_wait(id, queues, left),
    }
}

/// A replay with a keyed log delivers what was recorded, on all channels of a thread, where each
/// sender sends the same messages in the same order again, and its receives and selects repeat what
/// was recorded.
pub proof fn law_keyed_replay_repeats_record<T>(
    record: Seq<Got<ChannelIdView, MaybeId, T>>,
    run: Seq<Wait<ChannelIdView, MaybeId, T>>,
    streams: spec_fn(ChannelIdView, Option<Seq<u32>>) -> Seq<T>,
)
    requires
        is_run(run),
        record.len() == run.len(),
        forall|i: int| 0 <= i < run.len() ==> repeats(record[i], #[trigger] run[i]),
        forall|channel: ChannelIdView, sender: Option<Seq<u32>>|
            (#[trigger] recorded_from(record, channel, sender)).is_prefix_of(
                streams(channel, sender),
            ),
        forall|channel: ChannelIdView, sender: Option<Seq<u32>>|
            (#[trigger] run_polled(run, channel, sender)).is_prefix_of(streams(channel, sender)),
    ensures
        forall|i: int|
            0 <= i < run.len() && (#[trigger] record[i]).message is Some ==> run[i].r == Some(
                (record[i].message->0).1,
            ),
{
    law_replay_delivers_record(record, run, streams);
}

} // verus!
