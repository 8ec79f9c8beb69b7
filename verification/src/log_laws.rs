//! What every operation keeps, and how what is recorded meets what is replayed.

use vstd::prelude::*;
use std::time::Duration;
use crate::crossbeam::Receiver;
use crate::crossbeam_select::{
    ready_metadata, ready_relation, ready_step, replayed_completion, replayed_select, replayed_success, select_event,
    select_replayed, select_step, SelectedOperation, Selecting,
};
use crate::desync::{DetMessage, Step};
use crate::detthread::ThreadView;
use crate::error::{
    DesyncError, DesyncErrorView, RecvErrorDef, RecvTimeoutErrorDef, TryRecvErrorDef,
};
use crate::global_log::{Flush, GlobalRecorder, GlobalReplayer};
use crate::ipc::OpaqueIpcReceiver;
use crate::ipc_message::{sender_of, Attempt, IpcSelectionResult, OpaqueIpcMessage};
use crate::ipc_set::{
    add_mismatch, add_step, dummies, event_of, events_of, ipc_select_step, moved, moved_receivers,
    AddStep, IpcReceiverSet, IpcSelectStep, MovedReceiver,
};
use crate::mode::RRMode;
use crate::recorder::{after_fetch, after_write, LogView};
use crate::recordlog::{
    channel_mismatch, entry_of, ChannelVariant, EntryView, IpcSelectEventView, MetadataView,
    TivoEventView,
};
use crate::router::{routed, RouterStep};
use crate::rr::{recv_step, DetChannelId, RecvRecordReplay, Wire};
use crate::send::{send_relation, send_step, SendStep, SenderKind, Sent};
use crate::thread_map::queue_of;
use crate::tivo::{created, creation_step, done, DoneError};
use crate::wire::crossbeam_drain_gave;

verus! {

/// A later state of the same log: what was written is still there, and what was fetched is gone.
pub open spec fn log_follows(before: LogView, after: LogView) -> bool {
    &&& before.written.is_prefix_of(after.written)
    &&& after.remaining.is_suffix_of(before.remaining)
    &&& after.sink == before.sink
}

/// A later state of the same thread: its id, its mode and its counters are the same, its log goes
/// on, and a desynchronization is never forgotten.
pub open spec fn thread_follows(before: ThreadView, after: ThreadView) -> bool {
    &&& log_follows(before.log, after.log)
    &&& before.desynced ==> after.desynced
    &&& after == (ThreadView { log: after.log, desynced: after.desynced, ..before })
}

proof fn lemma_log_refl(log: LogView)
    ensures
        log_follows(log, log),
{
    assert(log.written =~= log.written.subrange(0, log.written.len() as int));
    assert(log.remaining =~= log.remaining.subrange(
        log.remaining.len() - log.remaining.len(),
        log.remaining.len() as int,
    ));
}

proof fn lemma_log_write(log: LogView, entry: EntryView, success: bool)
    ensures
        log_follows(log, after_write(log, entry, success)),
{
    lemma_log_refl(log);
    let after = after_write(log, entry, success);
    assert(log.written =~= after.written.subrange(0, log.written.len() as int));
}

proof fn lemma_log_fetch(log: LogView)
    ensures
        log_follows(log, after_fetch(log)),
{
    lemma_log_refl(log);
    let after = after_fetch(log);
    if log.remaining.len() > 0 {
        assert(after.remaining =~= log.remaining.subrange(1, log.remaining.len() as int));
    }
}

/// A receive keeps its thread: nothing but its log and its knowledge of a desynchronization
/// changes.
pub proof fn law_receive_keeps_thread<T, E: RecvRecordReplay>(
    mode: RRMode,
    metadata: MetadataView,
    wire: Wire<T, E>,
    thread: ThreadView,
    queues: Map<Seq<u32>, Seq<T>>,
    r: Step<Result<T, E>>,
    thread_after: ThreadView,
    after: Map<Seq<u32>, Seq<T>>,
)
    requires
        recv_step(mode, metadata, wire, thread, queues, r, thread_after, after),
    ensures
        thread_follows(thread, thread_after),
        mode == RRMode::NoRR ==> thread_after == thread,
{
    lemma_log_refl(thread.log);
    lemma_log_fetch(thread.log);
    assert forall|entry: EntryView, success: bool| log_follows(
        thread.log,
        #[trigger] after_write(thread.log, entry, success),
    ) by {
        lemma_log_write(thread.log, entry, success);
    }
}

/// A send keeps its thread. Once the program is desynchronized, a send that is not forced leaves
/// the thread alone.
pub proof fn law_send_keeps_thread<T, E>(
    kind: SenderKind,
    mode: RRMode,
    metadata: MetadataView,
    sends: spec_fn(DetMessage<T>, Result<(), E>) -> bool,
    thread: ThreadView,
    msg: T,
    r: SendStep<T, E>,
    thread_after: ThreadView,
)
    requires
        send_step(kind, mode, metadata, sends, thread, msg, r, thread_after),
    ensures
        thread_follows(thread, thread_after),
        thread.desynced ==> thread_after == thread,
{
    lemma_log_refl(thread.log);
    lemma_log_fetch(thread.log);
    lemma_log_write(thread.log, entry_of(kind.event(), metadata), true);
    lemma_log_write(thread.log, entry_of(kind.event(), metadata), false);
}

/// A select keeps its thread.
pub proof fn law_select_keeps_thread<O>(
    mode: RRMode,
    receivers: Seq<usize>,
    selects: spec_fn(usize, O) -> bool,
    polls: spec_fn(usize, Seq<u32>, Result<bool, DesyncError>) -> bool,
    buffered: spec_fn(usize, bool) -> bool,
    thread: ThreadView,
    r: Step<SelectedOperation<O>>,
    thread_after: ThreadView,
)
    requires
        select_step(mode, receivers, selects, polls, buffered, thread, r, thread_after),
    ensures
        thread_follows(thread, thread_after),
{
    lemma_log_refl(thread.log);
    lemma_log_fetch(thread.log);
}

/// A query for a ready receiver keeps its thread.
pub proof fn law_ready_keeps_thread(
    mode: RRMode,
    readies: spec_fn(usize) -> bool,
    thread: ThreadView,
    r: Step<usize>,
    thread_after: ThreadView,
)
    requires
        ready_step(mode, readies, thread, r, thread_after),
    ensures
        thread_follows(thread, thread_after),
{
    lemma_log_refl(thread.log);
    lemma_log_fetch(thread.log);
    assert forall|entry: EntryView, success: bool| log_follows(
        thread.log,
        #[trigger] after_write(thread.log, entry, success),
    ) by {
        lemma_log_write(thread.log, entry, success);
    }
}

/// A select on a set of receivers keeps its thread, but for the counter of its channels: where the
/// replay is given up, every channel that stands for a closed one counts.
pub proof fn law_ipc_select_keeps_thread<R, A, E>(
    before: IpcReceiverSet<R, A>,
    selects: spec_fn(Result<Vec<IpcSelectionResult<A>>, E>) -> bool,
    tries: spec_fn(R, Attempt<A>) -> bool,
    thread: ThreadView,
    r: IpcSelectStep<R, A, E>,
    thread_after: ThreadView,
    after: IpcReceiverSet<R, A>,
)
    requires
        ipc_select_step(before, selects, tries, thread, r, thread_after, after),
    ensures
        thread_follows(
            thread.after_channels(
                match r {
                    IpcSelectStep::Desync { to_move, .. } => dummies(to_move@),
                    _ => 0,
                },
            ),
            thread_after,
        ),
        before.desynced ==> after.desynced,
{
    lemma_log_refl(thread.log);
    lemma_log_fetch(thread.log);
    assert forall|entry: EntryView, success: bool| log_follows(
        thread.log,
        #[trigger] after_write(thread.log, entry, success),
    ) by {
        lemma_log_write(thread.log, entry, success);
    }
}

/// The addition of a receiver to a set keeps its thread, but for the counter of its channels: where the
/// replay is given up, every channel that stands for a closed one counts.
pub proof fn law_add_keeps_thread<R, A, E>(
    before: IpcReceiverSet<R, A>,
    receiver: OpaqueIpcReceiver<R>,
    adds: spec_fn(R, Result<u64, E>) -> bool,
    thread: ThreadView,
    r: AddStep<R, E>,
    thread_after: ThreadView,
    after: IpcReceiverSet<R, A>,
)
    requires
        add_step(before, receiver, adds, thread, r, thread_after, after),
    ensures
        thread_follows(
            thread.after_channels(
                match r {
                    AddStep::Desync { to_move, .. } => dummies(to_move@),
                    _ => 0,
                },
            ),
            thread_after,
        ),
        before.desynced ==> after.desynced,
{
    lemma_log_refl(thread.log);
    lemma_log_fetch(thread.log);
    assert forall|entry: EntryView, success: bool| log_follows(
        thread.log,
        #[trigger] after_write(thread.log, entry, success),
    ) by {
        lemma_log_write(thread.log, entry, success);
    }
}

/// Once the program is desynchronized, no message is sent in its regular place: the sender gets it
/// back, or gives up.
pub proof fn law_desynchronized_send_is_refused<T, E>(
    kind: SenderKind,
    mode: RRMode,
    metadata: MetadataView,
    sends: spec_fn(DetMessage<T>, Result<(), E>) -> bool,
    thread: ThreadView,
    msg: T,
    r: Sent<T, E>,
    thread_after: ThreadView,
)
    requires
        thread.desynced,
        send_relation(kind, mode, metadata, sends, thread, msg, r, thread_after),
    ensures
        thread_after == thread,
        r matches Sent::Desync(e, back) && e@ == DesyncErrorView::Desynchronized && back == msg,
{
}

/// An entry passes the check of the channel that it was recorded on, and fails that of any channel
/// of another kind or with another id.
pub proof fn law_entry_belongs_to_its_channel(
    event: TivoEventView,
    recorded: MetadataView,
    other: MetadataView,
)
    ensures
        channel_mismatch(entry_of(event, recorded), recorded) is None,
        channel_mismatch(entry_of(event, recorded), other) is None <==> (
        recorded.channel_variant == other.channel_variant && recorded.id == other.id),
{
}

/// A send that was recorded is sent again by a replay that meets its entry.
pub proof fn law_recorded_send_is_replayed<T, E>(
    kind: SenderKind,
    metadata: MetadataView,
    sends: spec_fn(DetMessage<T>, Result<(), E>) -> bool,
    thread: ThreadView,
    msg: T,
    r: Sent<T, E>,
    thread_after: ThreadView,
)
    requires
        !thread.desynced,
        thread.log.remaining.len() > 0,
        thread.log.remaining[0] == entry_of(kind.event(), metadata),
        send_relation(kind, RRMode::Replay, metadata, sends, thread, msg, r, thread_after),
    ensures
        r is Sent,
{
}

/// A select that was recorded selects the same index and the same sender again, if the message of
/// that sender is there.
pub proof fn law_recorded_select_is_replayed<O, T>(
    metadata: MetadataView,
    index: usize,
    got: Result<DetMessage<T>, RecvErrorDef>,
    receivers: Seq<usize>,
    polls: spec_fn(usize, Seq<u32>, Result<bool, DesyncError>) -> bool,
    r: Selecting<O>,
)
    requires
        receivers.contains(index),
        forall|sender: Seq<u32>, polled: Result<bool, DesyncError>| #[trigger]
            polls(index, sender, polled) ==> polled == Ok::<bool, DesyncError>(true),
        replayed_select(
            receivers,
            polls,
            entry_of(TivoEventView::CrossbeamSelect(select_event(got, index)), metadata),
            r,
        ),
    ensures
        select_replayed(
            r,
            select_event(got, index),
            entry_of(TivoEventView::CrossbeamSelect(select_event(got, index)), metadata),
        ),
{
}

/// The completion of a select that was recorded is accepted on the same channel. An error comes back
/// as it was. For a message, the next one from the same sender is delivered: the recorded one, if it
/// is what the receiver keeps first.
pub proof fn law_recorded_completion_is_replayed<T>(
    index: usize,
    got: Result<DetMessage<T>, RecvErrorDef>,
    thread: ThreadView,
    before: Receiver<T>,
    r: Result<Result<T, RecvErrorDef>, DesyncErrorView>,
    after: Receiver<T>,
)
    requires
        ({
            let entry = entry_of(
                TivoEventView::CrossbeamSelect(select_event(got, index)),
                before.metadata@,
            );
            replayed_completion(
                select_event(got, index),
                entry.channel_variant,
                entry.chan_id,
                thread,
                before,
                r,
                after,
            )
        }),
    ensures
        match got {
            Ok((sender, msg)) => {
                &&& replayed_success(
                    sender@,
                    before.recv_wire(thread).polled,
                    before.queues(),
                    r,
                    after.queues(),
                )
                &&& queue_of(before.queues(), sender@).len() > 0 && queue_of(
                    before.queues(),
                    sender@,
                )[0] == msg ==> r == Ok::<Result<T, RecvErrorDef>, DesyncErrorView>(Ok(msg))
            },
            Err(e) => {
                &&& r == Ok::<Result<T, RecvErrorDef>, DesyncErrorView>(Err(e))
                &&& after.queues() == before.queues()
            },
        },
{
}

/// A query for a ready receiver that was recorded gives the same index again.
pub proof fn law_recorded_ready_is_replayed(
    readies: spec_fn(usize) -> bool,
    select_index: usize,
    thread: ThreadView,
    r: Result<usize, DesyncErrorView>,
    thread_after: ThreadView,
)
    requires
        !thread.desynced,
        thread.log.remaining.len() > 0,
        thread.log.remaining[0] == entry_of(
            TivoEventView::CrossbeamSelectReady { select_index },
            ready_metadata(),
        ),
        ready_relation(RRMode::Replay, readies, thread, r, thread_after),
    ensures
        r == Ok::<usize, DesyncErrorView>(select_index),
{
}

/// The creation of a channel that was recorded passes the check of a replay that meets its entry.
pub proof fn law_recorded_creation_is_replayed(
    thread: ThreadView,
    metadata: MetadataView,
    r: Result<(), DesyncErrorView>,
    thread_after: ThreadView,
)
    requires
        thread.mode == RRMode::Replay,
        thread.log.remaining.len() > 0,
        thread.log.remaining[0] == entry_of(TivoEventView::ChannelCreation, metadata),
        creation_step(thread, metadata, r, thread_after),
    ensures
        r is Ok,
{
}

/// The creation of a channel keeps its thread, but for the counter of its channels.
pub proof fn law_creation_keeps_thread<V>(
    thread: ThreadView,
    variant: ChannelVariant,
    message_type: Seq<char>,
    r: Result<V, DesyncError>,
    thread_after: ThreadView,
)
    requires
        created(thread, variant, message_type, r, thread_after),
    ensures
        thread_follows(DetChannelId::after_new(thread), thread_after),
{
    lemma_log_refl(thread.log);
    lemma_log_fetch(thread.log);
    assert forall|entry: EntryView, success: bool| log_follows(
        thread.log,
        #[trigger] after_write(thread.log, entry, success),
    ) by {
        lemma_log_write(thread.log, entry, success);
    }
}

/// A receiver that is always empty finds nothing and times out, whoever asks.
pub proof fn law_silent_receiver_stays_empty<T>(
    receiver: Receiver<T>,
    timeout: Duration,
    thread: ThreadView,
    tried: Step<Result<T, TryRecvErrorDef>>,
    after_try: ThreadView,
    left_by_try: Map<Seq<u32>, Seq<T>>,
    waited: Step<Result<T, RecvTimeoutErrorDef>>,
    after_wait: ThreadView,
    left_by_wait: Map<Seq<u32>, Seq<T>>,
)
    requires
        receiver.mode == RRMode::NoRR,
        receiver.receiver.is_silent(),
        recv_step(
            receiver.mode,
            receiver.metadata@,
            receiver.try_recv_wire(thread),
            thread,
            receiver.queues(),
            tried,
            after_try,
            left_by_try,
        ),
        recv_step(
            receiver.mode,
            receiver.metadata@,
            receiver.recv_timeout_wire(thread, timeout),
            thread,
            receiver.queues(),
            waited,
            after_wait,
            left_by_wait,
        ),
    ensures
        tried == Step::Done(Err::<T, TryRecvErrorDef>(TryRecvErrorDef::Empty)),
        after_try == thread,
        waited == Step::Done(Err::<T, RecvTimeoutErrorDef>(RecvTimeoutErrorDef::Timeout)),
        after_wait == thread,
{
}

/// A receiver that was added at some index is accepted by a replay that has as many receivers, and
/// by no other.
pub proof fn law_recorded_add_is_replayed(
    recorded_index: u64,
    metadata: MetadataView,
    index: u64,
)
    ensures
        add_mismatch(
            entry_of(TivoEventView::IpcSelectAdd(recorded_index), metadata),
            index,
            index as nat,
            metadata,
        ) is None <==> recorded_index == index,
{
}

/// Every result of a select is logged at its own place: a message with its index and its sender, an
/// end with its index.
pub proof fn law_selection_is_logged_in_order<A>(selected: Seq<IpcSelectionResult<A>>, i: int)
    requires
        0 <= i < selected.len(),
        event_of(selected[i]) is Some,
    ensures
        events_of(selected).len() == selected.len(),
        events_of(selected)[i] == event_of(selected[i])->0,
        match selected[i] {
            IpcSelectionResult::MessageReceived(index, msg) => {
                &&& events_of(selected)[i] matches IpcSelectEventView::MessageReceived(j, sender)
                &&& j == index
                &&& sender_of(msg.data@) == Some(sender)
            },
            IpcSelectionResult::ChannelClosed(index) => events_of(selected)[i]
                == IpcSelectEventView::ChannelClosed(index),
        },
{
}

/// Receivers that are moved to the real set keep their indices. In place of one that is known to be
/// closed, and of no other, another channel is added.
pub proof fn law_moved_receivers_keep_their_indices<R, A>(set: IpcReceiverSet<R, A>, i: int)
    requires
        !set.desynced,
        0 <= i < set@.receivers.len(),
    ensures
        moved_receivers(set).len() == set@.receivers.len(),
        moved_receivers(set)[i] == moved(set@.receivers[i]),
        moved_receivers(set)[i] is Dummy <==> set@.receivers[i].closed,
        !set@.receivers[i].closed ==> moved_receivers(set)[i] == MovedReceiver::Open(
            set@.receivers[i].opaque_receiver,
        ),
{
}

/// The log after `n` fetches.
pub open spec fn nth_fetch(log: LogView, n: nat) -> LogView
    decreases n,
{
    if n == 0 {
        log
    } else {
        after_fetch(nth_fetch(log, (n - 1) as nat))
    }
}

/// What was written comes back in the same order: after `n` fetches the entry number `n` is next,
/// and after all entries there is none.
pub proof fn law_entries_come_back_in_order(log: LogView, n: nat)
    requires
        n <= log.remaining.len(),
    ensures
        nth_fetch(log, n).remaining == log.remaining.skip(n as int),
        n < log.remaining.len() ==> nth_fetch(log, n).remaining[0] == log.remaining[n as int],
        n == log.remaining.len() ==> nth_fetch(log, n).remaining.len() == 0,
    decreases n,
{
    if n == 0 {
        assert(log.remaining.skip(0) =~= log.remaining);
    } else {
        law_entries_come_back_in_order(log, (n - 1) as nat);
        let before = nth_fetch(log, (n - 1) as nat).remaining;
        assert(before.drop_first() =~= log.remaining.skip(n as int));
    }
}

/// A recorded run ends only once: the recorder is gone afterwards, so that a second end fails.
pub proof fn law_recorded_run_ends_once(
    before: Option<GlobalRecorder>,
    first: Result<Option<Flush>, DoneError>,
    between: Option<GlobalRecorder>,
    second: Result<Option<Flush>, DoneError>,
    after: Option<GlobalRecorder>,
)
    requires
        done(Ok(RRMode::Record), before, first, between),
        done(Ok(RRMode::Record), between, second, after),
    ensures
        second == Err::<Option<Flush>, DoneError>(DoneError::NoRecorder),
{
}

/// What is to be written at the end of a recorded run holds a log for every thread that was recorded,
/// and for no other: what was taken from its channel. A replay of these logs gives each thread its own.
pub proof fn law_written_logs_are_replayed(
    recorder: GlobalRecorder,
    flush: Flush,
    after: Option<GlobalRecorder>,
    id: Seq<u32>,
    replayer: GlobalReplayer,
)
    requires
        done(Ok(RRMode::Record), Some(recorder), Ok(Some(flush)), after),
        replayer.replayer@ == flush.entries@,
    ensures
        replayer.replayer@.contains_key(id) <==> recorder.recorder@.contains_key(id),
        recorder.recorder@.contains_key(id) ==> crossbeam_drain_gave(
            recorder.recorder@[id].end(),
            replayer.replayer@[id],
        ),
{
    assert(flush.entries@.dom().contains(id) == recorder.recorder@.dom().contains(id));
}

/// A message does not end its route: once the handler is put back, all routes are as they were.
pub proof fn law_handled_message_keeps_routes<H, A>(
    wakeup: u64,
    routes: Map<u64, H>,
    result: IpcSelectionResult<A>,
)
    ensures
        match routed(wakeup, routes, result) {
            (RouterStep::Handle(id, handler, _), left) => left.insert(id, handler) == routes,
            (RouterStep::Closed(id), left) => left == routes.remove(id),
            (_, left) => left == routes,
        },
{
    match routed(wakeup, routes, result) {
        (RouterStep::Handle(id, handler, _), left) => {
            assert(left.insert(id, handler) =~= routes);
        },
        _ => {},
    }
}

/// Every message with a route reaches the handler of that route, whatever its index, and it reaches it
/// unchanged. The router itself is woken up by messages at its own index only. That there is no handler
/// is said only of an index without a route.
pub proof fn law_message_reaches_its_handler<H, A>(
    wakeup: u64,
    routes: Map<u64, H>,
    id: u64,
    msg: OpaqueIpcMessage<A>,
)
    ensures
        ({
            let step = routed(wakeup, routes, IpcSelectionResult::MessageReceived(id, msg)).0;
            &&& id != wakeup && routes.contains_key(id) ==> step == RouterStep::Handle(
                id,
                routes[id],
                msg,
            )
            &&& step is WakeUp <==> id == wakeup
            &&& step is NoHandler <==> id != wakeup && !routes.contains_key(id)
            &&& step matches RouterStep::NoHandler(unknown) ==> unknown == id
            &&& !(step is Closed)
        }),
{
}

/// A route ends when its channel is closed, and no other does. The end of a channel without a route is
/// reported as such.
pub proof fn law_closed_channel_ends_its_route<H, A>(
    wakeup: u64,
    routes: Map<u64, H>,
    id: u64,
    other: u64,
)
    requires
        other != id,
    ensures
        ({
            let (step, left) = routed(wakeup, routes, IpcSelectionResult::<A>::ChannelClosed(id));
            &&& step is Closed <==> routes.contains_key(id)
            &&& step is NoHandler <==> !routes.contains_key(id)
            &&& step matches RouterStep::Closed(ended) ==> ended == id
            &&& step matches RouterStep::NoHandler(unknown) ==> unknown == id
            &&& !left.contains_key(id)
            &&& left.contains_key(other) <==> routes.contains_key(other)
            &&& routes.contains_key(other) ==> left[other] == routes[other]
        }),
{
}

/// Routes do not depend on each other: what is done for a message is the same before and after a
/// result at another index was routed, also while that handler is still at work.
pub proof fn law_routes_are_independent<H, A>(
    wakeup: u64,
    routes: Map<u64, H>,
    first: IpcSelectionResult<A>,
    id: u64,
    msg: OpaqueIpcMessage<A>,
)
    requires
        match first {
            IpcSelectionResult::MessageReceived(other, _) => other != id,
            IpcSelectionResult::ChannelClosed(other) => other != id,
        },
    ensures
        ({
            let second = IpcSelectionResult::MessageReceived(id, msg);
            routed(wakeup, routed(wakeup, routes, first).1, second).0 == routed(
                wakeup,
                routes,
                second,
            ).0
        }),
{
}

/// A route that is added is used: the next message at its index goes to its handler, and what is done at
/// any other index stays as it was.
pub proof fn law_added_route_is_used<H, A>(
    wakeup: u64,
    routes: Map<u64, H>,
    id: u64,
    handler: H,
    msg: OpaqueIpcMessage<A>,
    other: u64,
)
    requires
        id != wakeup,
        other != id,
    ensures
        routed(
            wakeup,
            routes.insert(id, handler),
            IpcSelectionResult::MessageReceived(id, msg),
        ).0 == RouterStep::Handle(id, handler, msg),
        routed(
            wakeup,
            routes.insert(id, handler),
            IpcSelectionResult::MessageReceived(other, msg),
        ).0 == routed(wakeup, routes, IpcSelectionResult::MessageReceived(other, msg)).0,
{
}

} // verus!
