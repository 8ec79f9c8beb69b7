//! What becomes of messages over runs of many waits.

use vstd::prelude::*;
use crate::error::DesyncErrorView;
use crate::rr::{expected_recv, is_other, stash, PollOf};
use crate::thread_map::{keep, queue_of};

verus! {

/// The messages from `sender` among `polls`, in the order in which they came.
pub open spec fn polled_from<I: View, T>(polls: Seq<PollOf<I, T>>, sender: I::V) -> Seq<T>
    decreases polls.len(),
{
    if polls.len() == 0 {
        Seq::<T>::empty()
    } else {
        let earlier = polled_from(polls.drop_last(), sender);
        match polls.last() {
            Ok((id, msg)) => if id@ == sender {
                earlier.push(msg)
            } else {
                earlier
            },
            Err(_) => earlier,
        }
    }
}

pub proof fn lemma_stash<I: View, T>(queues: Map<I::V, Seq<T>>, polls: Seq<PollOf<I, T>>, sender: I::V)
    ensures
        queue_of(stash(queues, polls), sender) == queue_of(queues, sender) + polled_from(
            polls,
            sender,
        ),
    decreases polls.len(),
{
    if polls.len() == 0 {
        assert(queue_of(queues, sender) + Seq::<T>::empty() =~= queue_of(queues, sender));
    } else {
        lemma_stash(queues, polls.drop_last(), sender);
        let earlier = stash(queues, polls.drop_last());
        let before = queue_of(queues, sender);
        let came = polled_from(polls.drop_last(), sender);
        match polls.last() {
            Ok((id, msg)) => {
                if id@ == sender {
                    assert((before + came).push(msg) =~= before + came.push(msg));
                } else {
                    assert(queue_of(keep(earlier, id@, msg), sender) == queue_of(earlier, sender));
                }
            },
            Err(_) => {},
        }
    }
}

pub proof fn lemma_no_match<I: View, T>(polls: Seq<PollOf<I, T>>, sender: I::V)
    requires
        forall|i: int| 0 <= i < polls.len() ==> is_other(#[trigger] polls[i], sender),
    ensures
        polled_from(polls, sender) == Seq::<T>::empty(),
    decreases polls.len(),
{
    if polls.len() > 0 {
        assert(is_other(polls[polls.len() - 1], sender));
        assert forall|i: int| 0 <= i < polls.drop_last().len() implies is_other(
            #[trigger] polls.drop_last()[i],
            sender,
        ) by {
            assert(polls.drop_last()[i] == polls[i]);
        }
        lemma_no_match(polls.drop_last(), sender);
    }
}

/// The message that a wait for `sender` delivers to a reader of `from`.
pub open spec fn delivered<K, T, X>(sender: K, r: Result<T, X>, from: K) -> Seq<T> {
    match r {
        Ok(msg) => if from == sender {
            seq![msg]
        } else {
            Seq::<T>::empty()
        },
        Err(_) => Seq::<T>::empty(),
    }
}

/// A wait for a message loses none and swaps none of one sender: for each sender, what is
/// delivered, followed by what is kept afterwards, is what was kept before followed by what came
/// off the wire.
pub proof fn law_no_message_lost<I: View, T>(
    queues: Map<I::V, Seq<T>>,
    sender: I::V,
    polls: Seq<PollOf<I, T>>,
    r: Result<T, DesyncErrorView>,
    after: Map<I::V, Seq<T>>,
    from: I::V,
)
    requires
        expected_recv(queues, sender, polls, r, after),
    ensures
        delivered(sender, r, from) + queue_of(after, from) == queue_of(queues, from) + polled_from(
            polls,
            from,
        ),
{
    if queue_of(queues, sender).len() > 0 {
        let queue = queue_of(queues, sender);
        assert(seq![queue[0]] + queue.drop_first() =~= queue + Seq::<T>::empty());
        assert(Seq::<T>::empty() + queue_of(queues, from) =~= queue_of(queues, from)
            + Seq::<T>::empty());
    } else {
        let earlier = polls.drop_last();
        lemma_stash(queues, earlier, from);
        lemma_stash(queues, polls, from);
        assert forall|i: int| 0 <= i < earlier.len() implies is_other(
            #[trigger] earlier[i],
            sender,
        ) by {
            assert(earlier[i] == polls[i]);
        }
        lemma_no_match(earlier, sender);
        let rest = queue_of(queues, from) + polled_from(polls, from);
        assert(Seq::<T>::empty() + rest =~= rest);
        if let Ok((id, msg)) = polls.last() {
            if id@ == sender && from == sender {
                assert(seq![msg] + queue_of(after, from) =~= rest);
            }
        }
    }
}

/// The same messages are kept for every sender.
pub open spec fn same_queues<K, T>(a: Map<K, Seq<T>>, b: Map<K, Seq<T>>) -> bool {
    forall|sender: K| #[trigger] queue_of(a, sender) == queue_of(b, sender)
}

/// One operation of a replay on a channel: a wait for a message from `expected`, which may fail, or
/// an operation that waits for nobody. Channels are told apart by `C`, senders by `I`.
pub struct Wait<C, I: View, T> {
    pub channel: C,
    pub expected: Option<I::V>,
    /// The attempts to receive that were made.
    pub polls: Seq<PollOf<I, T>>,
    /// The message, if the wait gave one.
    pub r: Option<T>,
    pub before: Map<I::V, Seq<T>>,
    pub after: Map<I::V, Seq<T>>,
}

/// What the operation hands out of the messages from `sender`.
pub open spec fn handed_out<C, I: View, T>(wait: Wait<C, I, T>, sender: I::V) -> Seq<T> {
    match wait.r {
        Some(msg) => if wait.expected == Some(sender) {
            seq![msg]
        } else {
            Seq::<T>::empty()
        },
        None => Seq::<T>::empty(),
    }
}

/// What the operation does to the messages that are kept on its channel: for each sender, what is
/// handed out, followed by what is kept afterwards, is what was kept before followed by what came off
/// the wire.
pub open spec fn is_wait<C, I: View, T>(wait: Wait<C, I, T>) -> bool {
    forall|sender: I::V|
        handed_out(wait, sender) + #[trigger] queue_of(wait.after, sender) == queue_of(
            wait.before,
            sender,
        ) + polled_from(wait.polls, sender)
}

/// A wait for a message is an operation of a run.
pub proof fn law_expected_receive_is_a_wait<C, I: View, T>(
    channel: C,
    queues: Map<I::V, Seq<T>>,
    sender: I::V,
    polls: Seq<PollOf<I, T>>,
    r: Result<T, DesyncErrorView>,
    after: Map<I::V, Seq<T>>,
) -> (wait: Wait<C, I, T>)
    requires
        expected_recv(queues, sender, polls, r, after),
    ensures
        is_wait(wait),
        wait == (Wait::<C, I, T> {
            channel,
            expected: Some(sender),
            polls,
            r: r.ok(),
            before: queues,
            after,
        }),
{
    let wait = Wait { channel, expected: Some(sender), polls, r: r.ok(), before: queues, after };
    assert forall|from: I::V|
        handed_out(wait, from) + #[trigger] queue_of(wait.after, from) == queue_of(
            wait.before,
            from,
        ) + polled_from(wait.polls, from) by {
        law_no_message_lost::<I, T>(queues, sender, polls, r, after, from);
        assert(handed_out(wait, from) =~= delivered(sender, r, from));
    }
    wait
}

/// An operation that leaves all messages where they are is one of a run.
pub proof fn law_idle_operation_is_a_wait<C, I: View, T>(
    channel: C,
    queues: Map<I::V, Seq<T>>,
    after: Map<I::V, Seq<T>>,
) -> (wait: Wait<C, I, T>)
    requires
        same_queues(queues, after),
    ensures
        is_wait(wait),
        wait == (Wait::<C, I, T> {
            channel,
            expected: None,
            polls: Seq::empty(),
            r: None,
            before: queues,
            after,
        }),
{
    let wait = Wait::<C, I, T> {
        channel,
        expected: None,
        polls: Seq::empty(),
        r: None,
        before: queues,
        after,
    };
    assert forall|from: I::V|
        handed_out(wait, from) + #[trigger] queue_of(wait.after, from) == queue_of(
            wait.before,
            from,
        ) + polled_from(wait.polls, from) by {
        assert(queue_of(queues, from) == queue_of(after, from));
        assert(Seq::<T>::empty() + queue_of(after, from) =~= queue_of(queues, from) + Seq::<
            T,
        >::empty());
    }
    wait
}

/// What is kept on `channel` after the run. Nothing is kept at first.
pub open spec fn kept<C, I: View, T>(run: Seq<Wait<C, I, T>>, channel: C) -> Map<I::V, Seq<T>>
    decreases run.len(),
{
    if run.len() == 0 {
        Map::<I::V, Seq<T>>::empty()
    } else if run.last().channel == channel {
        run.last().after
    } else {
        kept(run.drop_last(), channel)
    }
}

/// Each operation finds on its channel what the one before it on that channel left.
pub open spec fn is_threaded<C, I: View, T>(run: Seq<Wait<C, I, T>>) -> bool
    decreases run.len(),
{
    run.len() == 0 || {
        &&& is_threaded(run.drop_last())
        &&& same_queues(run.last().before, kept(run.drop_last(), run.last().channel))
    }
}

/// Operations of one thread, one after the other, on any number of channels.
pub open spec fn is_run<C, I: View, T>(run: Seq<Wait<C, I, T>>) -> bool {
    &&& is_threaded(run)
    &&& forall|i: int| 0 <= i < run.len() ==> is_wait(#[trigger] run[i])
}

/// What an operation hands out of `channel` and `sender`.
pub open spec fn wait_delivered<C, I: View, T>(
    wait: Wait<C, I, T>,
    channel: C,
    sender: I::V,
) -> Seq<T> {
    if wait.channel == channel {
        handed_out(wait, sender)
    } else {
        Seq::<T>::empty()
    }
}

/// The messages from `sender` that came off the wire of `channel` during an operation.
pub open spec fn wait_polled<C, I: View, T>(
    wait: Wait<C, I, T>,
    channel: C,
    sender: I::V,
) -> Seq<T> {
    if wait.channel == channel {
        polled_from(wait.polls, sender)
    } else {
        Seq::<T>::empty()
    }
}

/// The messages from `sender` that the waits on `channel` returned.
pub open spec fn run_delivered<C, I: View, T>(
    run: Seq<Wait<C, I, T>>,
    channel: C,
    sender: I::V,
) -> Seq<T>
    decreases run.len(),
{
    if run.len() == 0 {
        Seq::<T>::empty()
    } else {
        run_delivered(run.drop_last(), channel, sender) + wait_delivered(
            run.last(),
            channel,
            sender,
        )
    }
}

/// The messages from `sender` that came off the wire of `channel` during the run.
pub open spec fn run_polled<C, I: View, T>(
    run: Seq<Wait<C, I, T>>,
    channel: C,
    sender: I::V,
) -> Seq<T>
    decreases run.len(),
{
    if run.len() == 0 {
        Seq::<T>::empty()
    } else {
        run_polled(run.drop_last(), channel, sender) + wait_polled(run.last(), channel, sender)
    }
}

proof fn lemma_run_shorter<C, I: View, T>(run: Seq<Wait<C, I, T>>)
    requires
        is_run(run),
        run.len() > 0,
    ensures
        is_run(run.drop_last()),
        is_wait(run.last()),
        same_queues(run.last().before, kept(run.drop_last(), run.last().channel)),
{
    let shorter = run.drop_last();
    assert(is_wait(run[run.len() - 1]));
    assert forall|i: int| 0 <= i < shorter.len() implies is_wait(#[trigger] shorter[i]) by {
        assert(shorter[i] == run[i]);
    }
}

/// Over a whole run no message is lost, none comes twice, and none of one sender overtakes another,
/// also if waits fail: on each channel and for each sender, what the waits returned, followed by
/// what is kept at the end, is what came off the wire.
pub proof fn law_run_loses_nothing<C, I: View, T>(
    run: Seq<Wait<C, I, T>>,
    channel: C,
    sender: I::V,
)
    requires
        is_run(run),
    ensures
        run_delivered(run, channel, sender) + queue_of(kept(run, channel), sender) == run_polled(
            run,
            channel,
            sender,
        ),
    decreases run.len(),
{
    if run.len() == 0 {
        assert(Seq::<T>::empty() + Seq::<T>::empty() =~= Seq::<T>::empty());
    } else {
        let shorter = run.drop_last();
        let last = run.last();
        lemma_run_shorter(run);
        law_run_loses_nothing(shorter, channel, sender);
        let earlier = run_delivered(shorter, channel, sender);
        let now = wait_delivered(last, channel, sender);
        let came = wait_polled(last, channel, sender);
        let before = queue_of(kept(shorter, channel), sender);
        let after = queue_of(kept(run, channel), sender);
        if last.channel == channel {
            assert(queue_of(last.before, sender) == before);
            assert(handed_out(last, sender) + queue_of(last.after, sender) == queue_of(
                last.before,
                sender,
            ) + polled_from(last.polls, sender));
        } else {
            assert(now + after =~= before + came);
        }
        assert(earlier + now + after =~= earlier + (now + after));
        assert(earlier + (before + came) =~= earlier + before + came);
    }
}

/// What was received while recording: on which channel, and from whom, if there was a message.
pub struct Got<C, I: View, T> {
    pub channel: C,
    pub message: Option<(I::V, T)>,
}

/// The operation waits for the sender of what was recorded, on the same channel, and is completed.
pub open spec fn repeats<C, I: View, T>(got: Got<C, I, T>, wait: Wait<C, I, T>) -> bool {
    &&& wait.channel == got.channel
    &&& match got.message {
        Some((sender, _)) => wait.expected == Some(sender) && wait.r is Some,
        None => wait.expected is None,
    }
}

/// What was received from `sender` on `channel`.
pub open spec fn got_from<C, I: View, T>(got: Got<C, I, T>, channel: C, sender: I::V) -> Seq<T> {
    match got.message {
        Some((from, msg)) => if got.channel == channel && from == sender {
            seq![msg]
        } else {
            Seq::<T>::empty()
        },
        None => Seq::<T>::empty(),
    }
}

/// The messages from `sender` on `channel` among those that were recorded.
pub open spec fn recorded_from<C, I: View, T>(
    record: Seq<Got<C, I, T>>,
    channel: C,
    sender: I::V,
) -> Seq<T>
    decreases record.len(),
{
    if record.len() == 0 {
        Seq::<T>::empty()
    } else {
        recorded_from(record.drop_last(), channel, sender) + got_from(
            record.last(),
            channel,
            sender,
        )
    }
}

proof fn lemma_as_many<C, I: View, T>(
    record: Seq<Got<C, I, T>>,
    run: Seq<Wait<C, I, T>>,
    channel: C,
    sender: I::V,
)
    requires
        record.len() == run.len(),
        forall|i: int| 0 <= i < run.len() ==> repeats(record[i], #[trigger] run[i]),
    ensures
        run_delivered(run, channel, sender).len() == recorded_from(record, channel, sender).len(),
    decreases run.len(),
{
    if run.len() > 0 {
        let shorter = run.drop_last();
        let fewer = record.drop_last();
        assert forall|i: int| 0 <= i < shorter.len() implies repeats(
            fewer[i],
            #[trigger] shorter[i],
        ) by {
            assert(shorter[i] == run[i] && fewer[i] == record[i]);
        }
        lemma_as_many(fewer, shorter, channel, sender);
        assert(repeats(record[run.len() - 1], run[run.len() - 1]));
    }
}

proof fn lemma_prefix_trans<T>(a: Seq<T>, b: Seq<T>, c: Seq<T>)
    requires
        a.is_prefix_of(b),
        b.is_prefix_of(c),
    ensures
        a.is_prefix_of(c),
{
    assert(a =~= c.subrange(0, a.len() as int)) by {
        assert forall|i: int| 0 <= i < a.len() implies a[i] == c[i] by {
            assert(b.subrange(0, a.len() as int)[i] == b[i]);
            assert(c.subrange(0, b.len() as int)[i] == c[i]);
        }
    }
}

proof fn lemma_prefix_at<T>(a: Seq<T>, b: Seq<T>, i: int)
    requires
        a.is_prefix_of(b),
        0 <= i < a.len(),
    ensures
        a[i] == b[i],
{
    assert(b.subrange(0, a.len() as int)[i] == b[i]);
}

proof fn lemma_prefix_of_sum<T>(a: Seq<T>, b: Seq<T>)
    ensures
        a.is_prefix_of(a + b),
{
    assert(a =~= (a + b).subrange(0, a.len() as int));
}

/// The last message of the run, if each message is at its place in the stream of its sender.
proof fn lemma_last_delivery<C, I: View, T>(
    record: Seq<Got<C, I, T>>,
    run: Seq<Wait<C, I, T>>,
    sender: I::V,
    msg: T,
    stream: Seq<T>,
)
    requires
        is_run(run),
        run.len() > 0,
        record.len() == run.len(),
        forall|i: int| 0 <= i < run.len() ==> repeats(record[i], #[trigger] run[i]),
        record.last().message == Some((sender, msg)),
        recorded_from(record, record.last().channel, sender).is_prefix_of(stream),
        run_polled(run, record.last().channel, sender).is_prefix_of(stream),
    ensures
        run.last().r == Some(msg),
{
    let shorter = run.drop_last();
    let fewer = record.drop_last();
    let channel = record.last().channel;
    assert forall|i: int| 0 <= i < shorter.len() implies repeats(
        fewer[i],
        #[trigger] shorter[i],
    ) by {
        assert(shorter[i] == run[i] && fewer[i] == record[i]);
    }
    assert(repeats(record[run.len() - 1], run[run.len() - 1]));
    lemma_as_many(fewer, shorter, channel, sender);
    let all = recorded_from(record, channel, sender);
    let out = run_delivered(run, channel, sender);
    let count = recorded_from(fewer, channel, sender).len() as int;
    assert(all[count] == msg);
    assert(out[count] == run.last().r->0);
    lemma_prefix_at(all, stream, count);
    law_run_loses_nothing(run, channel, sender);
    lemma_prefix_of_sum(out, queue_of(kept(run, channel), sender));
    lemma_prefix_at(out, run_polled(run, channel, sender), count);
    lemma_prefix_at(run_polled(run, channel, sender), stream, count);
}

/// A replay delivers what was recorded, on all channels of a thread. Where each sender sends the same
/// messages in the same order as while recording (`streams`, by channel and sender), and the waits of
/// the replay follow the channels and senders of the record and are all completed, every wait
/// delivers the message that was recorded, however the messages of different senders overtake each
/// other.
pub proof fn law_replay_delivers_record<C, I: View, T>(
    record: Seq<Got<C, I, T>>,
    run: Seq<Wait<C, I, T>>,
    streams: spec_fn(C, I::V) -> Seq<T>,
)
    requires
        is_run(run),
        record.len() == run.len(),
        forall|i: int| 0 <= i < run.len() ==> repeats(record[i], #[trigger] run[i]),
        forall|channel: C, sender: I::V|
            (#[trigger] recorded_from(record, channel, sender)).is_prefix_of(
                streams(channel, sender),
            ),
        forall|channel: C, sender: I::V|
            (#[trigger] run_polled(run, channel, sender)).is_prefix_of(streams(channel, sender)),
    ensures
        forall|i: int|
            0 <= i < run.len() && (#[trigger] record[i]).message is Some ==> run[i].r == Some(
                (record[i].message->0).1,
            ),
    decreases run.len(),
{
    if run.len() > 0 {
        let shorter = run.drop_last();
        let fewer = record.drop_last();
        lemma_run_shorter(run);
        assert forall|i: int| 0 <= i < shorter.len() implies repeats(
            fewer[i],
            #[trigger] shorter[i],
        ) by {
            assert(shorter[i] == run[i] && fewer[i] == record[i]);
        }
        assert forall|c: C, s: I::V|
            (#[trigger] recorded_from(fewer, c, s)).is_prefix_of(streams(c, s)) by {
            lemma_prefix_of_sum(recorded_from(fewer, c, s), got_from(record.last(), c, s));
            lemma_prefix_trans(
                recorded_from(fewer, c, s),
                recorded_from(record, c, s),
                streams(c, s),
            );
        }
        assert forall|c: C, s: I::V|
            (#[trigger] run_polled(shorter, c, s)).is_prefix_of(streams(c, s)) by {
            lemma_prefix_of_sum(run_polled(shorter, c, s), wait_polled(run.last(), c, s));
            lemma_prefix_trans(run_polled(shorter, c, s), run_polled(run, c, s), streams(c, s));
        }
        law_replay_delivers_record(fewer, shorter, streams);
        let n = run.len() - 1;
        if let Some((sender, msg)) = record.last().message {
            let c = record.last().channel;
            assert(recorded_from(record, c, sender).is_prefix_of(streams(c, sender)));
            assert(run_polled(run, c, sender).is_prefix_of(streams(c, sender)));
            lemma_last_delivery(record, run, sender, msg, streams(c, sender));
        }
        assert forall|i: int|
            0 <= i < run.len() && (#[trigger] record[i]).message is Some implies run[i].r == Some(
            (record[i].message->0).1,
        ) by {
            if i < n {
                assert(fewer[i] == record[i] && shorter[i] == run[i]);
            }
        }
    }
}

} // verus!
