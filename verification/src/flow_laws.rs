//! What becomes of all that comes off a channel, over a whole run.

use vstd::prelude::*;
use std::collections::VecDeque;
use crate::crossbeam::Receiver;
use crate::crossbeam_select::{
    completion, completion_takes, selected_message, SelectedMessage, SelectedOperationImpl,
};
use crate::desync::{DetMessage, Step};
use crate::detthread::ThreadView;
use crate::error::{DesyncErrorView, RecvErrorDef, RecvErrorRR};
use crate::global_log::{collected, Flush, GlobalRecorder, GlobalReplayer};
use crate::ipc::{all_taken, calls_conserve, calls_step};
use crate::ipc_message::IpcSelectionResult;
use crate::ipc_set::{
    events_of, ipc_select_relation, recorded_selection, select_metadata, IpcReceiverSet,
    IpcSelecting, SetView,
};
use crate::ipc_message::Attempt;
use crate::laws::delivered;
use crate::mode::RRMode;
use crate::recorder::{entry_views, LogView};
use crate::recordlog::{entry_of, EntryView, RecordEntry, TivoEventView};
use crate::rr::{calls_expected, expected_recv, PollOf};
use crate::source::{
    accounted, balanced, came_from, conserves, hands_out, lemma_came_in_parts, lemma_came_one,
    lemma_wait_accounted, out_of, passed, same_messages, since, some_out, step_message, step_takes,
    takes,
};
use crate::thread_map::queue_of;
use crate::tivo::done;
use crate::wire::{all_calls, crossbeam_drain_gave, Calls, LogEnd};

verus! {

/// All calls that a wait makes are accounted for: for each sender, what the calls gave, in order and
/// none left out, behind what was kept before, is what is returned followed by what is kept afterwards.
/// No call is made where a message from the expected sender is kept.
pub proof fn law_every_call_is_accounted<I: View, T, F: Calls<(I, T), RecvErrorRR>>(
    receiver_with_timeout: F,
    queues: Map<I::V, Seq<T>>,
    sender: I::V,
    r: Result<T, DesyncErrorView>,
    after: Map<I::V, Seq<T>>,
) -> (seen: Seq<Option<(I, T)>>)
    requires
        calls_expected::<I, T, F>(receiver_with_timeout, queues, sender, r, after),
    ensures
        all_calls(receiver_with_timeout, (), seen),
        forall|from: I::V|
            #[trigger] delivered(sender, r, from) + queue_of(after, from) == queue_of(queues, from)
                + came_from(seen, from),
        queue_of(queues, sender).len() > 0 ==> seen.len() == 0 && r is Ok,
{
    let polls = choose|polls: Seq<PollOf<I, T>>|
        {
            &&& #[trigger] expected_recv(queues, sender, polls, r, after)
            &&& forall|i: int| 0 <= i < polls.len() ==> receiver_with_timeout.gives(#[trigger] polls[i])
            &&& all_calls(receiver_with_timeout, (), takes(polls))
        };
    lemma_wait_accounted(queues, sender, polls, r, after);
    let seen = takes(polls);
    assert forall|from: I::V|
        #[trigger] delivered(sender, r, from) + queue_of(after, from) == queue_of(queues, from)
            + came_from(seen, from) by {
        assert(balanced(
            queues,
            seen,
            match r {
                Ok(msg) => Some((sender, msg)),
                Err(_) => None,
            },
            after,
            from,
        ));
    }
    seen
}

/// An operation on a channel: what was kept and what had come before it, what it handed out, and
/// what was kept and had come after it.
#[verifier::reject_recursive_types(I)]
#[verifier::reject_recursive_types(T)]
pub struct Operation<I: View, T> {
    pub queues: Map<I::V, Seq<T>>,
    pub came: Seq<Option<(I, T)>>,
    pub handed: Option<(I::V, T)>,
    pub came_after: Seq<Option<(I, T)>>,
    pub after: Map<I::V, Seq<T>>,
}

/// The operation neither loses nor makes up a message.
pub open spec fn is_sound<I: View, T>(op: Operation<I, T>) -> bool {
    &&& op.came.is_prefix_of(op.came_after)
    &&& accounted(op.queues, since(op.came, op.came_after), op.handed, op.after)
}

/// The operation at `i` starts from what the one before it has left.
pub open spec fn continues<I: View, T>(ops: Seq<Operation<I, T>>, i: int) -> bool {
    &&& ops[i].queues == ops[i - 1].after
    &&& ops[i].came == ops[i - 1].came_after
}

/// Each operation starts from what the one before it has left.
pub open spec fn follow_up<I: View, T>(ops: Seq<Operation<I, T>>) -> bool {
    forall|i: int| 0 < i < ops.len() ==> #[trigger] continues(ops, i)
}

/// The messages of `from` that the operations handed out, in this order.
pub open spec fn all_handed<I: View, T>(ops: Seq<Operation<I, T>>, from: I::V) -> Seq<T>
    decreases ops.len(),
{
    if ops.len() == 0 {
        Seq::<T>::empty()
    } else {
        all_handed(ops.drop_last(), from) + out_of(ops.last().handed, from)
    }
}

/// An operation that conserves messages is one of a run.
pub proof fn law_conserving_operation<I: View, T>(
    queues: Map<I::V, Seq<T>>,
    came: Seq<Option<(I, T)>>,
    handed: Option<T>,
    came_after: Seq<Option<(I, T)>>,
    after: Map<I::V, Seq<T>>,
) -> (op: Operation<I, T>)
    requires
        conserves(queues, came, handed, came_after, after),
    ensures
        is_sound(op),
        op.queues == queues,
        op.came == came,
        op.came_after == came_after,
        op.after == after,
        match op.handed {
            Some((_, msg)) => handed == Some(msg),
            None => handed is None,
        },
{
    match handed {
        Some(msg) => {
            assert(some_out(queues, since(came, came_after), msg, after));
            let sender = choose|sender: I::V| #[trigger]
                hands_out(queues, since(came, came_after), sender, msg, after);
            assert(hands_out(queues, since(came, came_after), sender, msg, after));
            Operation { queues, came, handed: Some((sender, msg)), came_after, after }
        },
        None => Operation { queues, came, handed: None, came_after, after },
    }
}

/// Over a run of operations on one channel, for each sender, all that came from it, in order and
/// none left out, behind what was kept at first, is what was handed out followed by what is kept at
/// last.
pub proof fn law_channel_accounts_for_all<I: View, T>(ops: Seq<Operation<I, T>>, from: I::V)
    requires
        ops.len() > 0,
        follow_up(ops),
        forall|i: int| 0 <= i < ops.len() ==> is_sound(#[trigger] ops[i]),
    ensures
        ops[0].came.is_prefix_of(ops.last().came_after),
        all_handed(ops, from) + queue_of(ops.last().after, from) == queue_of(ops[0].queues, from)
            + came_from(since(ops[0].came, ops.last().came_after), from),
    decreases ops.len(),
{
    let op = ops.last();
    assert(is_sound(ops[ops.len() - 1]));
    assert(balanced(op.queues, since(op.came, op.came_after), op.handed, op.after, from));
    let fewer = ops.drop_last();
    let kept = queue_of(op.after, from);
    let out = out_of(op.handed, from);
    if fewer.len() == 0 {
        assert(all_handed(fewer, from) + out =~= out);
    } else {
        assert forall|i: int| 0 < i < fewer.len() implies #[trigger] continues(fewer, i) by {
            assert(continues(ops, i));
        }
        assert forall|i: int| 0 <= i < fewer.len() implies is_sound(#[trigger] fewer[i]) by {
            assert(is_sound(ops[i]));
        }
        law_channel_accounts_for_all(fewer, from);
        let last = ops.len() - 1;
        assert(continues(ops, last));
        let first = since(ops[0].came, fewer.last().came_after);
        let second = since(op.came, op.came_after);
        lemma_came_in_parts(first, second, from);
        assert(since(ops[0].came, op.came_after) =~= first + second);
        let before = queue_of(ops[0].queues, from);
        assert((all_handed(fewer, from) + out) + kept =~= all_handed(fewer, from) + (out + kept));
        assert((all_handed(fewer, from) + queue_of(op.queues, from)) + came_from(second, from)
            =~= all_handed(fewer, from) + (queue_of(op.queues, from) + came_from(second, from)));
        assert((before + came_from(first, from)) + came_from(second, from) =~= before + (came_from(
            first,
            from,
        ) + came_from(second, from)));
    }
}

/// A receive on an inter-process channel accounts for all calls of the functions that stand for the real
/// channel: for each sender, what they gave, behind what was kept before, is what is handed out
/// followed by what is kept afterwards.
pub proof fn law_ipc_calls_are_accounted<F, G, I: View, T>(
    first: F,
    second: G,
    queues: Map<I::V, Seq<T>>,
    msg: Option<T>,
    after: Map<I::V, Seq<T>>,
) -> (r: (Seq<Option<(I, T)>>, Option<(I::V, T)>))
    requires
        calls_conserve::<F, G, I, T>(first, second, queues, msg, after),
    ensures
        all_calls(first, second, r.0),
        match r.1 {
            Some((_, m)) => msg == Some(m),
            None => msg is None,
        },
        forall|from: I::V|
            #[trigger] out_of(r.1, from) + queue_of(after, from) == queue_of(queues, from)
                + came_from(r.0, from),
{
    let none = Seq::<Option<(I, T)>>::empty();
    let came = choose|came: Seq<Option<(I, T)>>|
        {
            &&& #[trigger] all_taken(first, second, came)
            &&& conserves(queues, none, msg, came, after)
        };
    let seen = choose|seen: Seq<Option<(I, T)>>| #[trigger]
        all_calls(first, second, seen) && same_messages(seen, came);
    let op = law_conserving_operation(queues, none, msg, came, after);
    assert(since(none, came) =~= came);
    assert forall|from: I::V|
        #[trigger] out_of(op.handed, from) + queue_of(after, from) == queue_of(queues, from)
            + came_from(seen, from) by {
        assert(balanced(queues, came, op.handed, after, from));
        assert(came_from(seen, from) == came_from(came, from));
    }
    (seen, op.handed)
}

/// While nothing is replayed, a receive on an inter-process channel takes one message off it at most,
/// which is handed on, unless it cannot be written to the log.
pub proof fn law_live_ipc_receive_takes_one<F, G, T, E>(
    first: F,
    second: G,
    mode: RRMode,
    written: Seq<EntryView>,
    queues: Map<Seq<u32>, Seq<T>>,
    r: Step<Result<T, E>>,
    written_after: Seq<EntryView>,
    after: Map<Seq<u32>, Seq<T>>,
) -> (out: (Seq<Option<DetMessage<T>>>, Option<DetMessage<T>>))
    requires
        calls_step(first, second, mode, written, queues, r, written_after, after),
        mode != RRMode::Replay,
        mode == RRMode::Record ==> written_after != written,
    ensures
        all_calls(first, second, out.0),
        match out.1 {
            Some((_, m)) => step_message(r) == Some(m),
            None => step_message(r) is None,
        },
        forall|from: Seq<u32>| #[trigger]
            came_from(out.0, from) == (match out.1 {
                Some((id, m)) => if id@ == from {
                    seq![m]
                } else {
                    Seq::<T>::empty()
                },
                None => Seq::<T>::empty(),
            }),
        after == queues,
{
    let none = Seq::<Option<DetMessage<T>>>::empty();
    let came = choose|came: Seq<Option<DetMessage<T>>>|
        {
            &&& #[trigger] all_taken(first, second, came)
            &&& step_takes(mode, written, queues, none, r, written_after, came, after)
        };
    let seen = choose|seen: Seq<Option<DetMessage<T>>>| #[trigger]
        all_calls(first, second, seen) && same_messages(seen, came);
    assert(passed(none, step_message(r), came));
    let one = came.last();
    assert(came =~= seq![one]);
    assert forall|from: Seq<u32>| #[trigger]
        came_from(seen, from) == (match one {
            Some((id, m)) => if id@ == from {
                seq![m]
            } else {
                Seq::<T>::empty()
            },
            None => Seq::<T>::empty(),
        }) by {
        lemma_came_one(one, from);
        assert(came_from(seen, from) == came_from(came, from));
    }
    (seen, one)
}

/// The messages among what came, oldest first.
pub open spec fn messages<I, T>(came: Seq<Option<(I, T)>>) -> Seq<T>
    decreases came.len(),
{
    if came.len() == 0 {
        Seq::<T>::empty()
    } else {
        match came.last() {
            Some((_, msg)) => messages(came.drop_last()).push(msg),
            None => messages(came.drop_last()),
        }
    }
}

/// A receive as the program sees it.
#[verifier::reject_recursive_types(I)]
#[verifier::reject_recursive_types(T)]
pub struct Receive<I: View, T, E> {
    pub mode: RRMode,
    pub written: Seq<EntryView>,
    pub queues: Map<I::V, Seq<T>>,
    pub came: Seq<Option<(I, T)>>,
    pub r: Step<Result<T, E>>,
    pub written_after: Seq<EntryView>,
    pub came_after: Seq<Option<(I, T)>>,
    pub after: Map<I::V, Seq<T>>,
}

/// The receive follows no log, and what it got was written if it is recorded.
pub open spec fn is_live<I: View, T, E>(op: Receive<I, T, E>) -> bool {
    &&& op.mode != RRMode::Replay
    &&& op.mode == RRMode::Record ==> op.written_after != op.written
    &&& step_takes(
        op.mode,
        op.written,
        op.queues,
        op.came,
        op.r,
        op.written_after,
        op.came_after,
        op.after,
    )
}

/// The receive at `i` starts from what had come before.
pub open spec fn goes_on<I: View, T, E>(ops: Seq<Receive<I, T, E>>, i: int) -> bool {
    ops[i].came == ops[i - 1].came_after
}

/// The messages that the receives handed to the program, in this order.
pub open spec fn handed_on<I: View, T, E>(ops: Seq<Receive<I, T, E>>) -> Seq<T>
    decreases ops.len(),
{
    if ops.len() == 0 {
        Seq::<T>::empty()
    } else {
        match step_message(ops.last().r) {
            Some(msg) => handed_on(ops.drop_last()).push(msg),
            None => handed_on(ops.drop_last()),
        }
    }
}

/// While a run is recorded, or neither recorded nor replayed, every receive makes one call of the real
/// channel, and all messages that came off it are handed to the program, each once and in order.
pub proof fn law_live_receives_hand_on_all<I: View, T, E>(ops: Seq<Receive<I, T, E>>)
    requires
        ops.len() > 0,
        ops[0].came == Seq::<Option<(I, T)>>::empty(),
        forall|i: int| 0 <= i < ops.len() ==> is_live(#[trigger] ops[i]),
        forall|i: int| 0 < i < ops.len() ==> #[trigger] goes_on(ops, i),
    ensures
        messages(ops.last().came_after) == handed_on(ops),
        ops.last().came_after.len() == ops.len(),
    decreases ops.len(),
{
    let op = ops.last();
    assert(is_live(ops[ops.len() - 1]));
    assert(passed(op.came, step_message(op.r), op.came_after));
    assert(op.came_after.drop_last() =~= op.came);
    let fewer = ops.drop_last();
    if fewer.len() > 0 {
        assert forall|i: int| 0 <= i < fewer.len() implies is_live(#[trigger] fewer[i]) by {
            assert(is_live(ops[i]));
        }
        assert forall|i: int| 0 < i < fewer.len() implies #[trigger] goes_on(fewer, i) by {
            assert(goes_on(ops, i));
        }
        law_live_receives_hand_on_all(fewer);
        let last = ops.len() - 1;
        assert(goes_on(ops, last));
        assert(fewer.last() == ops[last - 1]);
        assert(messages(op.came) == handed_on(fewer));
    } else {
        assert(op.came == ops[0].came);
        assert(messages(op.came) =~= Seq::<T>::empty());
        assert(handed_on(fewer) =~= Seq::<T>::empty());
    }
    assert(messages(op.came_after) == (match op.came_after.last() {
        Some((_, msg)) => messages(op.came).push(msg),
        None => messages(op.came),
    }));
}

/// The completion of a selected operation.
#[verifier::reject_recursive_types(T)]
#[verifier::reject_recursive_types(O)]
pub struct Completed<O, T> {
    pub inner: SelectedOperationImpl<O>,
    pub thread: ThreadView,
    pub before: Receiver<T>,
    pub r: Result<Result<T, RecvErrorDef>, DesyncErrorView>,
    pub thread_after: ThreadView,
    pub after: Receiver<T>,
}

/// The operation that the real select gave, if it did.
pub open spec fn real_operation<O>(inner: SelectedOperationImpl<O>) -> Option<O> {
    match inner {
        SelectedOperationImpl::Record(_, op) => Some(op),
        SelectedOperationImpl::NoRR(_, op) => Some(op),
        SelectedOperationImpl::Desync(_, op) => Some(op),
        _ => None,
    }
}

/// The result that came off the channel, without its sender.
pub open spec fn payload<T>(raw: SelectedMessage<T>) -> Result<T, RecvErrorDef> {
    match raw {
        SelectedMessage::Plain(r) => r,
        SelectedMessage::Tagged(Ok((_, msg))) => Ok(msg),
        SelectedMessage::Tagged(Err(e)) => Err(e),
    }
}

/// The completion of an operation of the real select takes one result off the channel.
pub open spec fn completes_once<O, T>(
    done: Completed<O, T>,
    completes: spec_fn(O, SelectedMessage<T>) -> bool,
) -> bool {
    &&& real_operation(done.inner) is Some
    &&& completion(
        done.inner,
        completes,
        done.thread,
        done.before,
        done.r,
        done.thread_after,
        done.after,
    )
    &&& completion_takes(done.inner, done.before, done.r, done.after)
}

/// The result of a real operation is handed on as it came, and nothing else is received or kept.
pub proof fn law_completion_hands_on_what_came<O, T>(
    done: Completed<O, T>,
    completes: spec_fn(O, SelectedMessage<T>) -> bool,
) -> (raw: SelectedMessage<T>)
    requires
        completes_once(done, completes),
    ensures
        completes(real_operation(done.inner)->0, raw),
        done.r == Ok::<Result<T, RecvErrorDef>, DesyncErrorView>(payload(raw)),
        done.after.came() == done.before.came(),
        done.after.queues() == done.before.queues(),
{
    let op = real_operation(done.inner)->0;
    let (raw, got) = choose|raw: SelectedMessage<T>, got: Result<DetMessage<T>, RecvErrorDef>|
        {
            &&& completes(op, raw)
            &&& #[trigger] selected_message(done.thread.det_id, raw, got)
            &&& done.r == Ok::<Result<T, RecvErrorDef>, DesyncErrorView>(
                crate::desync::without_sender(got),
            )
        };
    raw
}

/// The completion at `i` is on the receiver as the one before has left it.
pub open spec fn same_receiver<O, T>(run: Seq<Completed<O, T>>, i: int) -> bool {
    run[i].before == run[i - 1].after
}

/// `raw` came off the channel and is handed on, and nothing else is received or kept.
pub open spec fn handed_once<O, T>(
    done: Completed<O, T>,
    completes: spec_fn(O, SelectedMessage<T>) -> bool,
    raw: SelectedMessage<T>,
) -> bool {
    &&& completes(real_operation(done.inner)->0, raw)
    &&& done.r == Ok::<Result<T, RecvErrorDef>, DesyncErrorView>(payload(raw))
    &&& done.after.came() == done.before.came()
    &&& done.after.queues() == done.before.queues()
}

proof fn lemma_nothing_else<O, T>(
    run: Seq<Completed<O, T>>,
    completes: spec_fn(O, SelectedMessage<T>) -> bool,
    raws: Seq<SelectedMessage<T>>,
    n: int,
)
    requires
        0 < n <= run.len(),
        raws.len() == run.len(),
        forall|i: int| 0 <= i < run.len() ==> handed_once(#[trigger] run[i], completes, raws[i]),
        forall|i: int| 0 < i < run.len() ==> #[trigger] same_receiver(run, i),
    ensures
        run[n - 1].after.came() == run[0].before.came(),
        run[n - 1].after.queues() == run[0].before.queues(),
    decreases n,
{
    assert(handed_once(run[n - 1], completes, raws[n - 1]));
    if n > 1 {
        lemma_nothing_else(run, completes, raws, n - 1);
        assert(same_receiver(run, n - 1));
    }
}

/// Over a run of selects that follow no log, every result that came off the channel is handed on
/// once, in order: each completion takes one result, that of the operation that was selected, and the
/// receiver takes nothing on its own.
pub proof fn law_selects_hand_on_all<O, T>(
    run: Seq<Completed<O, T>>,
    completes: spec_fn(O, SelectedMessage<T>) -> bool,
) -> (raws: Seq<SelectedMessage<T>>)
    requires
        run.len() > 0,
        forall|i: int| 0 <= i < run.len() ==> completes_once(#[trigger] run[i], completes),
        forall|i: int| 0 < i < run.len() ==> #[trigger] same_receiver(run, i),
    ensures
        raws.len() == run.len(),
        forall|i: int|
            0 <= i < run.len() ==> {
                &&& completes(real_operation((#[trigger] run[i]).inner)->0, raws[i])
                &&& run[i].r == Ok::<Result<T, RecvErrorDef>, DesyncErrorView>(payload(raws[i]))
            },
        run.last().after.came() == run[0].before.came(),
        run.last().after.queues() == run[0].before.queues(),
{
    let raws = Seq::new(
        run.len(),
        |i: int|
            choose|raw: SelectedMessage<T>| #[trigger] handed_once(run[i], completes, raw),
    );
    assert forall|i: int| 0 <= i < run.len() implies handed_once(
        #[trigger] run[i],
        completes,
        raws[i],
    ) by {
        let raw = law_completion_hands_on_what_came(run[i], completes);
        assert(handed_once(run[i], completes, raw));
    }
    lemma_nothing_else(run, completes, raws, run.len() as int);
    raws
}

/// A select of a recording set. `selects` tells what the one select of the real set may give that it
/// makes.
#[verifier::reject_recursive_types(R)]
#[verifier::reject_recursive_types(A)]
#[verifier::reject_recursive_types(E)]
pub struct RecordedSelect<R, A, E> {
    pub set: IpcReceiverSet<R, A>,
    pub selects: spec_fn(Result<Vec<IpcSelectionResult<A>>, E>) -> bool,
    pub tries: spec_fn(R, Attempt<A>) -> bool,
    pub thread: ThreadView,
    pub r: Result<Vec<IpcSelectionResult<A>>, E>,
    pub thread_after: ThreadView,
    pub after: SetView<R, A>,
}

/// The select was recorded, and gave a result.
pub open spec fn is_recorded<R, A, E>(select: RecordedSelect<R, A, E>) -> bool {
    &&& select.set.mode == RRMode::Record
    &&& !select.thread.desynced
    &&& ipc_select_relation(
        select.set,
        select.selects,
        select.tries,
        select.thread,
        IpcSelecting::Selected(select.r),
        select.thread_after,
        select.after,
    )
}

/// The entry of the results of a select.
pub open spec fn selection_entry<A>(results: Seq<IpcSelectionResult<A>>) -> EntryView {
    entry_of(TivoEventView::IpcSelect { select_events: events_of(results) }, select_metadata())
}

/// The entries of what the selects gave, in this order. A select that fails has none.
pub open spec fn selection_entries<R, A, E>(run: Seq<RecordedSelect<R, A, E>>) -> Seq<EntryView>
    decreases run.len(),
{
    if run.len() == 0 {
        Seq::<EntryView>::empty()
    } else {
        let earlier = selection_entries(run.drop_last());
        match run.last().r {
            Ok(results) => earlier.push(selection_entry(results@)),
            Err(_) => earlier,
        }
    }
}

/// The select at `i` starts from the log as the one before has left it.
pub open spec fn same_log<R, A, E>(run: Seq<RecordedSelect<R, A, E>>, i: int) -> bool {
    run[i].thread.log == run[i - 1].thread_after.log
}

/// The log grows by the entry of what a select gave.
pub open spec fn logs_result<R, A, E>(select: RecordedSelect<R, A, E>) -> bool {
    &&& (select.selects)(select.r)
    &&& select.thread_after.log.written == match select.r {
        Ok(results) => select.thread.log.written.push(selection_entry(results@)),
        Err(_) => select.thread.log.written,
    }
}

/// One select of a recording set returns and logs what the one select of the real set gave.
pub proof fn law_recorded_select_is_the_real_one<R, A, E>(select: RecordedSelect<R, A, E>)
    requires
        is_recorded(select),
    ensures
        (select.selects)(select.r),
        select.thread_after.log.written == (match select.r {
            Ok(results) => select.thread.log.written.push(selection_entry(results@)),
            Err(_) => select.thread.log.written,
        }),
{
    let selected = choose|selected: Result<Vec<IpcSelectionResult<A>>, E>|
        {
            &&& (select.selects)(selected)
            &&& #[trigger] recorded_selection(
                selected,
                select.thread,
                IpcSelecting::Selected(select.r),
                select.thread_after,
            )
        };
    assert(selected == select.r);
}

proof fn lemma_log_grows<R, A, E>(run: Seq<RecordedSelect<R, A, E>>)
    requires
        run.len() > 0,
        forall|i: int| 0 <= i < run.len() ==> logs_result(#[trigger] run[i]),
        forall|i: int| 0 < i < run.len() ==> #[trigger] same_log(run, i),
    ensures
        run.last().thread_after.log.written == run[0].thread.log.written + selection_entries(run),
    decreases run.len(),
{
    let last = run.len() - 1;
    let fewer = run.drop_last();
    let written = run[0].thread.log.written;
    let earlier = selection_entries(fewer);
    assert(logs_result(run[last]));
    if fewer.len() > 0 {
        assert forall|i: int| 0 <= i < fewer.len() implies logs_result(#[trigger] fewer[i]) by {
            assert(logs_result(run[i]));
        }
        assert forall|i: int| 0 < i < fewer.len() implies #[trigger] same_log(fewer, i) by {
            assert(same_log(run, i));
        }
        lemma_log_grows(fewer);
        assert(same_log(run, last));
    } else {
        assert(written + earlier =~= written);
    }
    if let Ok(results) = run.last().r {
        let entry = selection_entry(results@);
        assert(written + earlier.push(entry) =~= (written + earlier).push(entry));
    }
}

/// Over a run of selects of a recording set, the results that are returned are those of the selects of
/// the real set, one for one, and what is written to the log are these results, in order and none left
/// out.
pub proof fn law_recorded_selects_are_the_real_ones<R, A, E>(run: Seq<RecordedSelect<R, A, E>>)
    requires
        run.len() > 0,
        forall|i: int| 0 <= i < run.len() ==> is_recorded(#[trigger] run[i]),
        forall|i: int| 0 < i < run.len() ==> #[trigger] same_log(run, i),
    ensures
        forall|i: int| 0 <= i < run.len() ==> ((#[trigger] run[i]).selects)(run[i].r),
        run.last().thread_after.log.written == run[0].thread.log.written + selection_entries(run),
{
    assert forall|i: int| 0 <= i < run.len() implies logs_result(#[trigger] run[i]) by {
        law_recorded_select_is_the_real_one(run[i]);
    }
    lemma_log_grows(run);
}

/// Taking all that is there from `end`, once and nothing before, gives what was written to the log, in
/// this order. It is a matter of the channel between them that this holds.
pub open spec fn delivers(end: LogEnd<RecordEntry>, written: Seq<EntryView>) -> bool {
    forall|msgs: VecDeque<RecordEntry>| #[trigger]
        crossbeam_drain_gave(end.end(), msgs) ==> entry_views(msgs@) == written
}

/// For every thread, the log that is collected is exactly the sequence of the entries that its recorder
/// has written, in order, as far as the channel between them delivers what is sent. A log is collected
/// for no other thread.
pub proof fn law_collected_logs_are_what_was_written(
    recorder: Map<Seq<u32>, LogEnd<RecordEntry>>,
    entries: Map<Seq<u32>, VecDeque<RecordEntry>>,
    logs: Map<Seq<u32>, LogView>,
)
    requires
        collected(recorder, entries),
        logs.dom() == recorder.dom(),
        forall|id: Seq<u32>| #[trigger]
            recorder.contains_key(id) ==> delivers(recorder[id], logs[id].written),
    ensures
        forall|id: Seq<u32>| #[trigger] entries.contains_key(id) <==> logs.contains_key(id),
        forall|id: Seq<u32>| #[trigger]
            logs.contains_key(id) ==> entry_views(entries[id]@) == logs[id].written,
{
    assert forall|id: Seq<u32>| #[trigger]
        entries.contains_key(id) <==> logs.contains_key(id) by {
        assert(entries.dom().contains(id) == recorder.dom().contains(id));
        assert(logs.dom().contains(id) == recorder.dom().contains(id));
    }
    assert forall|id: Seq<u32>| #[trigger] logs.contains_key(id) implies entry_views(entries[id]@)
        == logs[id].written by {
        assert(logs.dom().contains(id));
        assert(recorder.contains_key(id));
        assert(crossbeam_drain_gave(recorder[id].end(), entries[id]));
    }
}

/// What a replay starts from is, for every thread, what its recorder has written until the recorded run
/// was done, in order, as far as the channels between them deliver what is sent.
pub proof fn law_replay_starts_from_what_was_written(
    recorder: GlobalRecorder,
    flush: Flush,
    after: Option<GlobalRecorder>,
    logs: Map<Seq<u32>, LogView>,
    replayer: GlobalReplayer,
    id: Seq<u32>,
)
    requires
        done(Ok(RRMode::Record), Some(recorder), Ok(Some(flush)), after),
        replayer.replayer@ == flush.entries@,
        logs.dom() == recorder.recorder@.dom(),
        forall|id: Seq<u32>| #[trigger]
            recorder.recorder@.contains_key(id) ==> delivers(
                recorder.recorder@[id],
                logs[id].written,
            ),
        logs.contains_key(id),
    ensures
        replayer.replayer@.contains_key(id),
        entry_views(replayer.replayer@[id]@) == logs[id].written,
{
    law_collected_logs_are_what_was_written(recorder.recorder@, flush.entries@, logs);
    assert(flush.entries@.contains_key(id));
}

} // verus!
