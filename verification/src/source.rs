//! Sources of messages that record all that is taken from them.

use vstd::prelude::*;
use crate::error::{DesyncErrorView, RecvErrorRR};
use crate::desync::Step;
use crate::mode::RRMode;
use crate::recordlog::EntryView;
use crate::rr::{expected_recv, is_other, stash, PollOf};
use crate::thread_map::{all_empty, dequeue, keep, queue_of, took_some};
use crate::wire::{took, Calls, Tap};

verus! {

/// Where messages are taken from. Each call is recorded in `came`, which no call makes shorter.
pub trait Source<I: View, T, E> {
    /// What tells one source from another.
    type End;

    /// The source itself. It stays the same whatever is taken from it.
    spec fn end(&self) -> Self::End;

    /// What a plain receive may give.
    spec fn direct(&self) -> spec_fn(Result<(I, T), E>) -> bool;

    /// What an attempt of a replay may give.
    spec fn polled(&self) -> spec_fn(PollOf<I, T>) -> bool;

    /// What each call took off the wire, oldest first.
    spec fn came(&self) -> Seq<Option<(I, T)>>;

    /// A plain receive is allowed.
    spec fn can_recv(&self) -> bool;

    /// An attempt of a replay is allowed.
    spec fn can_poll(&self) -> bool;

    /// Receives a message, as the program asked for.
    fn recv(&mut self) -> (got: Result<(I, T), E>)
        requires
            old(self).can_recv(),
        ensures
            final(self).end() == old(self).end(),
            final(self).can_recv() == old(self).can_recv(),
            final(self).can_poll() == old(self).can_poll(),
            final(self).direct() == old(self).direct(),
            final(self).polled() == old(self).polled(),
            (old(self).direct())(got),
            final(self).came() == old(self).came().push(took(got)),
    ;

    /// Makes one attempt of a replay to receive.
    fn poll(&mut self) -> (poll: PollOf<I, T>)
        requires
            old(self).can_poll(),
        ensures
            final(self).end() == old(self).end(),
            final(self).can_recv() == old(self).can_recv(),
            final(self).can_poll() == old(self).can_poll(),
            final(self).direct() == old(self).direct(),
            final(self).polled() == old(self).polled(),
            (old(self).polled())(poll),
            final(self).came() == old(self).came().push(took(poll)),
    ;
}

/// What a call of `f` may give.
pub open spec fn gives<M, E, F: Calls<M, E>>(f: F) -> spec_fn(Result<M, E>) -> bool {
    |got: Result<M, E>| f.gives(got)
}

impl<I: View, T, F: Calls<(I, T), RecvErrorRR>> Source<I, T, RecvErrorRR> for Tap<F, (), (I, T)> {
    type End = F;

    open spec fn end(&self) -> F {
        self.first()
    }

    open spec fn direct(&self) -> spec_fn(PollOf<I, T>) -> bool {
        gives(self.first())
    }

    open spec fn polled(&self) -> spec_fn(PollOf<I, T>) -> bool {
        gives(self.first())
    }

    open spec fn came(&self) -> Seq<Option<(I, T)>> {
        self.seen()
    }

    open spec fn can_recv(&self) -> bool {
        self.first().ready()
    }

    open spec fn can_poll(&self) -> bool {
        self.first().ready()
    }

    fn recv(&mut self) -> (got: PollOf<I, T>) {
        self.call_first()
    }

    fn poll(&mut self) -> (poll: PollOf<I, T>) {
        self.call_first()
    }
}

/// The messages of `seen` that came from `from`, oldest first.
pub open spec fn came_from<I: View, T>(seen: Seq<Option<(I, T)>>, from: I::V) -> Seq<T>
    decreases seen.len(),
{
    if seen.len() == 0 {
        Seq::<T>::empty()
    } else {
        let earlier = came_from(seen.drop_last(), from);
        match seen.last() {
            Some((id, msg)) => if id@ == from {
                earlier.push(msg)
            } else {
                earlier
            },
            None => earlier,
        }
    }
}

/// What is handed out of the messages of `from`.
pub open spec fn out_of<K, T>(handed: Option<(K, T)>, from: K) -> Seq<T> {
    match handed {
        Some((sender, msg)) => if sender == from {
            seq![msg]
        } else {
            Seq::<T>::empty()
        },
        None => Seq::<T>::empty(),
    }
}

/// Of the messages of `from`, what is handed out followed by what is kept afterwards is what was kept
/// before followed by what came.
pub open spec fn balanced<I: View, T>(
    queues: Map<I::V, Seq<T>>,
    seen: Seq<Option<(I, T)>>,
    handed: Option<(I::V, T)>,
    after: Map<I::V, Seq<T>>,
    from: I::V,
) -> bool {
    out_of(handed, from) + queue_of(after, from) == queue_of(queues, from) + came_from(seen, from)
}

/// No message is lost, made up or moved before another of its sender.
pub open spec fn accounted<I: View, T>(
    queues: Map<I::V, Seq<T>>,
    seen: Seq<Option<(I, T)>>,
    handed: Option<(I::V, T)>,
    after: Map<I::V, Seq<T>>,
) -> bool {
    forall|from: I::V| #[trigger] balanced(queues, seen, handed, after, from)
}

/// What was taken since `earlier`.
pub open spec fn since<M>(earlier: Seq<M>, now: Seq<M>) -> Seq<M> {
    now.skip(earlier.len() as int)
}

/// `msg` from `sender` is handed out, and nothing is lost.
pub open spec fn hands_out<I: View, T>(
    queues: Map<I::V, Seq<T>>,
    seen: Seq<Option<(I, T)>>,
    sender: I::V,
    msg: T,
    after: Map<I::V, Seq<T>>,
) -> bool {
    accounted(queues, seen, Some((sender, msg)), after)
}

/// `msg` from some sender is handed out, and nothing is lost.
pub open spec fn some_out<I: View, T>(
    queues: Map<I::V, Seq<T>>,
    seen: Seq<Option<(I, T)>>,
    msg: T,
    after: Map<I::V, Seq<T>>,
) -> bool {
    exists|sender: I::V| #[trigger] hands_out(queues, seen, sender, msg, after)
}

/// Of all that was taken off the wire and all that was kept, `handed` is handed out and the rest is
/// kept. `came` and `came_after` are all that was ever taken, before and after.
pub open spec fn conserves<I: View, T>(
    queues: Map<I::V, Seq<T>>,
    came: Seq<Option<(I, T)>>,
    handed: Option<T>,
    came_after: Seq<Option<(I, T)>>,
    after: Map<I::V, Seq<T>>,
) -> bool {
    &&& came.is_prefix_of(came_after)
    &&& match handed {
        Some(msg) => some_out(queues, since(came, came_after), msg, after),
        None => accounted(queues, since(came, came_after), None, after),
    }
}

/// The messages that the polls took off the wire.
pub open spec fn takes<I: View, T>(polls: Seq<PollOf<I, T>>) -> Seq<Option<(I, T)>> {
    Seq::new(polls.len(), |i: int| took(polls[i]))
}

/// The message that a wait for `sender` hands out.
pub open spec fn found_from<K, T, X>(sender: K, r: Result<T, X>) -> Option<(K, T)> {
    match r {
        Ok(msg) => Some((sender, msg)),
        Err(_) => None,
    }
}

/// A wait for `sender` in which all that was taken off the wire are the messages of the polls.
pub open spec fn waited<I: View, T>(
    queues: Map<I::V, Seq<T>>,
    sender: I::V,
    polled: spec_fn(PollOf<I, T>) -> bool,
    came: Seq<Option<(I, T)>>,
    r: Result<T, DesyncErrorView>,
    came_after: Seq<Option<(I, T)>>,
    after: Map<I::V, Seq<T>>,
) -> bool {
    exists|polls: Seq<PollOf<I, T>>|
        {
            &&& #[trigger] expected_recv(queues, sender, polls, r, after)
            &&& forall|i: int| 0 <= i < polls.len() ==> polled(#[trigger] polls[i])
            &&& came_after == came + takes(polls)
        }
}

/// What comes from `from` in two stretches comes in both together, one after the other.
pub proof fn lemma_came_in_parts<I: View, T>(
    first: Seq<Option<(I, T)>>,
    second: Seq<Option<(I, T)>>,
    from: I::V,
)
    ensures
        came_from(first + second, from) == came_from(first, from) + came_from(second, from),
    decreases second.len(),
{
    if second.len() == 0 {
        assert(first + second =~= first);
        assert(came_from(first, from) + Seq::<T>::empty() =~= came_from(first, from));
    } else {
        lemma_came_in_parts(first, second.drop_last(), from);
        assert((first + second).drop_last() =~= first + second.drop_last());
        assert((first + second).last() == second.last());
        if let Some((id, msg)) = second.last() {
            if id@ == from {
                let earlier = came_from(second.drop_last(), from);
                assert((came_from(first, from) + earlier).push(msg) =~= came_from(first, from)
                    + earlier.push(msg));
            }
        }
    }
}

/// One receive that finds the message `m`.
pub proof fn lemma_came_one<I: View, T>(got: Option<(I, T)>, from: I::V)
    ensures
        came_from(seq![got], from) == (match got {
            Some((id, msg)) => if id@ == from {
                seq![msg]
            } else {
                Seq::<T>::empty()
            },
            None => Seq::<T>::empty(),
        }),
{
    assert(seq![got].drop_last() =~= Seq::<Option<(I, T)>>::empty());
    assert(came_from(Seq::<Option<(I, T)>>::empty(), from) =~= Seq::<T>::empty());
    assert(seq![got].last() == got);
    if let Some((id, msg)) = got {
        assert(Seq::<T>::empty().push(msg) =~= seq![msg]);
    }
}

/// Keeping the messages of the polls puts them behind those that were kept.
pub proof fn lemma_stash_came<I: View, T>(
    queues: Map<I::V, Seq<T>>,
    polls: Seq<PollOf<I, T>>,
    from: I::V,
)
    ensures
        queue_of(stash(queues, polls), from) == queue_of(queues, from) + came_from(
            takes(polls),
            from,
        ),
    decreases polls.len(),
{
    let before = queue_of(queues, from);
    if polls.len() == 0 {
        assert(before + Seq::<T>::empty() =~= before);
    } else {
        lemma_stash_came(queues, polls.drop_last(), from);
        assert(takes(polls).drop_last() =~= takes(polls.drop_last()));
        assert(takes(polls).last() == took(polls.last()));
        let came = came_from(takes(polls.drop_last()), from);
        if let Ok((id, msg)) = polls.last() {
            if id@ == from {
                assert((before + came).push(msg) =~= before + came.push(msg));
            }
        }
    }
}

/// No message from `sender` came.
pub open spec fn not_from<I: View, T>(poll: PollOf<I, T>, sender: I::V) -> bool {
    match poll {
        Ok((id, _)) => id@ != sender,
        Err(_) => true,
    }
}

/// Polls that bring no message from `sender` take none.
pub proof fn lemma_none_taken<I: View, T>(polls: Seq<PollOf<I, T>>, sender: I::V)
    requires
        forall|i: int| 0 <= i < polls.len() ==> not_from(#[trigger] polls[i], sender),
    ensures
        came_from(takes(polls), sender) == Seq::<T>::empty(),
    decreases polls.len(),
{
    if polls.len() > 0 {
        assert(not_from(polls[polls.len() - 1], sender));
        assert forall|i: int| 0 <= i < polls.drop_last().len() implies not_from(
            #[trigger] polls.drop_last()[i],
            sender,
        ) by {
            assert(polls.drop_last()[i] == polls[i]);
        }
        lemma_none_taken(polls.drop_last(), sender);
        assert(takes(polls).drop_last() =~= takes(polls.drop_last()));
    }
}

/// A wait for a message accounts for all that its polls took off the wire.
pub proof fn lemma_wait_accounted<I: View, T>(
    queues: Map<I::V, Seq<T>>,
    sender: I::V,
    polls: Seq<PollOf<I, T>>,
    r: Result<T, DesyncErrorView>,
    after: Map<I::V, Seq<T>>,
)
    requires
        expected_recv(queues, sender, polls, r, after),
    ensures
        accounted(queues, takes(polls), found_from(sender, r), after),
{
    assert forall|from: I::V| #[trigger]
        balanced(queues, takes(polls), found_from(sender, r), after, from) by {
        let handed = out_of(found_from(sender, r), from);
        if queue_of(queues, sender).len() > 0 {
            assert(handed + queue_of(after, from) =~= queue_of(queues, from));
            assert(queue_of(queues, from) + came_from(takes(polls), from) =~= queue_of(
                queues,
                from,
            ));
        } else {
            let earlier = polls.drop_last();
            assert forall|i: int| 0 <= i < earlier.len() implies not_from(
                #[trigger] earlier[i],
                sender,
            ) by {
                assert(is_other(polls[i], sender));
            }
            lemma_stash_came(queues, earlier, from);
            lemma_stash_came(queues, polls, from);
            assert(takes(polls).drop_last() =~= takes(earlier));
            assert(takes(polls).last() == took(polls.last()));
            let came = came_from(takes(earlier), from);
            lemma_none_taken(earlier, sender);
            if from == sender {
                assert(queue_of(queues, from) =~= Seq::<T>::empty());
                if let Ok((id, msg)) = polls.last() {
                    if id@ == sender {
                        assert(queue_of(after, from) =~= Seq::<T>::empty());
                        assert(handed + queue_of(after, from) =~= queue_of(queues, from)
                            + came.push(msg));
                    }
                }
            }
            assert(handed + queue_of(after, from) =~= queue_of(queues, from) + came_from(
                takes(polls),
                from,
            ));
        }
    }
}

/// A wait for `sender` that accounts for all that was taken off the wire.
pub open spec fn accounted_wait<I: View, T, X>(
    queues: Map<I::V, Seq<T>>,
    sender: I::V,
    came: Seq<Option<(I, T)>>,
    r: Result<T, X>,
    came_after: Seq<Option<(I, T)>>,
    after: Map<I::V, Seq<T>>,
) -> bool {
    &&& came.is_prefix_of(came_after)
    &&& accounted(queues, since(came, came_after), found_from(sender, r), after)
}

/// A wait for a message accounts for all that was taken off the wire.
pub proof fn lemma_waited<I: View, T>(
    queues: Map<I::V, Seq<T>>,
    sender: I::V,
    polled: spec_fn(PollOf<I, T>) -> bool,
    came: Seq<Option<(I, T)>>,
    r: Result<T, DesyncErrorView>,
    came_after: Seq<Option<(I, T)>>,
    after: Map<I::V, Seq<T>>,
)
    requires
        waited(queues, sender, polled, came, r, came_after, after),
    ensures
        accounted_wait(queues, sender, came, r, came_after, after),
        conserves(
            queues,
            came,
            message(r),
            came_after,
            after,
        ),
{
    let polls = choose|polls: Seq<PollOf<I, T>>|
        {
            &&& #[trigger] expected_recv(queues, sender, polls, r, after)
            &&& forall|i: int| 0 <= i < polls.len() ==> polled(#[trigger] polls[i])
            &&& came_after == came + takes(polls)
        };
    lemma_wait_accounted(queues, sender, polls, r, after);
    assert(since(came, came_after) =~= takes(polls));
    if let Ok(msg) = r {
        assert(hands_out(queues, since(came, came_after), sender, msg, after));
        assert(some_out(queues, since(came, came_after), msg, after));
    }
}

/// A wait that accounts for all that was taken loses nothing.
pub proof fn lemma_wait_conserves<I: View, T, X>(
    queues: Map<I::V, Seq<T>>,
    sender: I::V,
    came: Seq<Option<(I, T)>>,
    r: Result<T, X>,
    came_after: Seq<Option<(I, T)>>,
    after: Map<I::V, Seq<T>>,
)
    requires
        accounted_wait(queues, sender, came, r, came_after, after),
    ensures
        conserves(queues, came, message(r), came_after, after),
{
    if let Ok(msg) = r {
        assert(hands_out(queues, since(came, came_after), sender, msg, after));
        assert(some_out(queues, since(came, came_after), msg, after));
    }
}

/// Where nothing is taken, handed out or kept, nothing is lost.
pub proof fn lemma_idle_conserves<I: View, T>(
    queues: Map<I::V, Seq<T>>,
    came: Seq<Option<(I, T)>>,
)
    ensures
        conserves(queues, came, None, came, queues),
{
    assert(since(came, came) =~= Seq::<Option<(I, T)>>::empty());
    assert forall|from: I::V| #[trigger]
        balanced(queues, since(came, came), None, queues, from) by {
        assert(Seq::<T>::empty() + queue_of(queues, from) =~= queue_of(queues, from)
            + Seq::<T>::empty());
    }
}

/// A message that is handed on as it comes is accounted for where nothing is kept for its sender:
/// otherwise it overtakes what is kept.
pub proof fn lemma_direct_accounted<I: View, T, E>(
    queues: Map<I::V, Seq<T>>,
    came: Seq<Option<(I, T)>>,
    got: Result<(I, T), E>,
)
    requires
        all_empty(queues),
    ensures
        conserves(
            queues,
            came,
            match got {
                Ok((_, msg)) => Some(msg),
                Err(_) => None,
            },
            came.push(took(got)),
            queues,
        ),
{
    let after = came.push(took(got));
    assert(since(came, after) =~= seq![took(got)]);
    let handed = match got {
        Ok((id, msg)) => Some((id@, msg)),
        Err(_) => None,
    };
    assert forall|from: I::V| #[trigger]
        balanced(queues, since(came, after), handed, queues, from) by {
        lemma_came_one(took(got), from);
        assert(queue_of(queues, from) =~= Seq::<T>::empty());
        assert(out_of(handed, from) + queue_of(queues, from) =~= queue_of(queues, from)
            + came_from(seq![took(got)], from));
    }
    assert(accounted(queues, since(came, after), handed, queues));
    if let Ok((id, msg)) = got {
        assert(hands_out(queues, since(came, after), id@, msg, queues));
        assert(some_out(queues, since(came, after), msg, queues));
    }
}

/// A message that was kept is handed out.
pub proof fn lemma_took_some_conserves<I: View, T>(
    queues: Map<I::V, Seq<T>>,
    came: Seq<Option<(I, T)>>,
    msg: T,
    after: Map<I::V, Seq<T>>,
)
    requires
        took_some(queues, msg, after),
    ensures
        conserves(queues, came, Some(msg), came, after),
{
    let sender = choose|sender: I::V|
        {
            &&& (#[trigger] queue_of(queues, sender)).len() > 0
            &&& msg == queue_of(queues, sender)[0]
            &&& after == dequeue(queues, sender)
        };
    assert(since(came, came) =~= Seq::<Option<(I, T)>>::empty());
    assert forall|from: I::V| #[trigger]
        balanced(queues, since(came, came), Some((sender, msg)), after, from) by {
        assert(out_of(Some((sender, msg)), from) + queue_of(after, from) =~= queue_of(queues, from)
            + Seq::<T>::empty());
    }
    assert(hands_out(queues, since(came, came), sender, msg, after));
    assert(some_out(queues, since(came, came), msg, after));
}

/// Messages are handed out of two stretches one after the other, the first of which hands out none.
pub proof fn lemma_conserves_chain<I: View, T>(
    queues: Map<I::V, Seq<T>>,
    came: Seq<Option<(I, T)>>,
    came_mid: Seq<Option<(I, T)>>,
    mid: Map<I::V, Seq<T>>,
    handed: Option<T>,
    came_after: Seq<Option<(I, T)>>,
    after: Map<I::V, Seq<T>>,
)
    requires
        conserves(queues, came, None, came_mid, mid),
        conserves(mid, came_mid, handed, came_after, after),
    ensures
        conserves(queues, came, handed, came_after, after),
{
    let first = since(came, came_mid);
    let second = since(came_mid, came_after);
    assert(since(came, came_after) =~= first + second);
    if let Some(msg) = handed {
        assert(some_out(mid, second, msg, after));
    }
    let by = choose|sender: I::V| #[trigger] hands_out(mid, second, sender, handed->0, after);
    let out = match handed {
        Some(msg) => Some((by, msg)),
        None => None,
    };
    if let Some(msg) = handed {
        assert(hands_out(mid, second, by, msg, after));
    }
    assert(accounted(mid, second, out, after));
    assert forall|from: I::V| #[trigger]
        balanced(queues, since(came, came_after), out, after, from) by {
        lemma_came_in_parts(first, second, from);
        assert(balanced(queues, first, None, mid, from));
        assert(balanced(mid, second, out, after, from));
        assert(Seq::<T>::empty() + queue_of(mid, from) =~= queue_of(mid, from));
        assert(out_of(out, from) + queue_of(after, from) =~= queue_of(queues, from) + (came_from(
            first,
            from,
        ) + came_from(second, from)));
    }
    assert(accounted(queues, since(came, came_after), out, after));
    if let Some(msg) = handed {
        assert(hands_out(queues, since(came, came_after), by, msg, after));
        assert(some_out(queues, since(came, came_after), msg, after));
    }
}

/// One call was made, and what it took off the wire is handed on.
pub open spec fn passed<I, T>(
    came: Seq<Option<(I, T)>>,
    handed: Option<T>,
    came_after: Seq<Option<(I, T)>>,
) -> bool {
    &&& came.is_prefix_of(came_after)
    &&& came_after.len() == came.len() + 1
    &&& match came_after.last() {
        Some((_, msg)) => handed == Some(msg),
        None => handed is None,
    }
}

/// The message that is handed on, if any.
pub open spec fn message<T, E>(r: Result<T, E>) -> Option<T> {
    match r {
        Ok(msg) => Some(msg),
        Err(_) => None,
    }
}

/// The message of an outcome, if any.
pub open spec fn outcome_message<T, E, X>(r: Result<Result<T, E>, X>) -> Option<T> {
    match r {
        Ok(v) => message(v),
        Err(_) => None,
    }
}

/// What a receive takes off the wire in each of the modes. While recording or without a log it makes
/// one call and hands on what came, unless that cannot be written to the log. While replaying
/// it hands out one message at most, and keeps all others.
pub open spec fn recv_takes<I: View, T, E, X>(
    mode: RRMode,
    queues: Map<I::V, Seq<T>>,
    came: Seq<Option<(I, T)>>,
    r: Result<Result<T, E>, X>,
    came_after: Seq<Option<(I, T)>>,
    after: Map<I::V, Seq<T>>,
) -> bool {
    match mode {
        RRMode::Replay => conserves(queues, came, outcome_message(r), came_after, after),
        _ => {
            &&& after == queues
            &&& came.is_prefix_of(came_after)
            &&& came_after.len() == came.len() + 1
            &&& r is Ok ==> passed(came, outcome_message(r), came_after)
        },
    }
}

/// The message that a step hands on, if any.
pub open spec fn step_message<T, E>(r: Step<Result<T, E>>) -> Option<T> {
    match r {
        Step::Done(v) => message(v),
        _ => None,
    }
}

/// What a receive takes off the wire, together with what follows on a desynchronization. A message is
/// lost only where it could not be written to the log.
pub open spec fn step_takes<I: View, T, E>(
    mode: RRMode,
    written: Seq<EntryView>,
    queues: Map<I::V, Seq<T>>,
    came: Seq<Option<(I, T)>>,
    r: Step<Result<T, E>>,
    written_after: Seq<EntryView>,
    came_after: Seq<Option<(I, T)>>,
    after: Map<I::V, Seq<T>>,
) -> bool {
    match mode {
        RRMode::Replay => conserves(queues, came, step_message(r), came_after, after),
        RRMode::NoRR => passed(came, step_message(r), came_after) && after == queues,
        RRMode::Record => {
            ||| passed(came, step_message(r), came_after) && after == queues && written_after.len()
                == written.len() + 1
            ||| {
                &&& written_after == written
                &&& came.is_prefix_of(came_after)
                &&& came_after.len() > came.len()
                &&& conserves(
                    queues,
                    came_after.take(came.len() as int + 1),
                    step_message(r),
                    came_after,
                    after,
                )
            }
        },
    }
}

/// A message that was waited for is kept again.
pub proof fn lemma_kept_again<I: View, T>(
    queues: Map<I::V, Seq<T>>,
    sender: I::V,
    polled: spec_fn(PollOf<I, T>) -> bool,
    came: Seq<Option<(I, T)>>,
    msg: T,
    came_after: Seq<Option<(I, T)>>,
    mid: Map<I::V, Seq<T>>,
)
    requires
        queue_of(queues, sender).len() == 0,
        waited(queues, sender, polled, came, Ok(msg), came_after, mid),
    ensures
        conserves(queues, came, None, came_after, keep(mid, sender, msg)),
{
    lemma_waited(queues, sender, polled, came, Ok(msg), came_after, mid);
    let polls = choose|polls: Seq<PollOf<I, T>>|
        {
            &&& #[trigger] expected_recv(queues, sender, polls, Ok(msg), mid)
            &&& forall|i: int| 0 <= i < polls.len() ==> polled(#[trigger] polls[i])
            &&& came_after == came + takes(polls)
        };
    let earlier = polls.drop_last();
    assert forall|i: int| 0 <= i < earlier.len() implies not_from(#[trigger] earlier[i], sender) by {
        assert(is_other(polls[i], sender));
    }
    lemma_none_taken(earlier, sender);
    lemma_stash_came(queues, earlier, sender);
    let after = keep(mid, sender, msg);
    assert forall|from: I::V| #[trigger]
        balanced(queues, since(came, came_after), None, after, from) by {
        assert(balanced(queues, since(came, came_after), Some((sender, msg)), mid, from));
        if from == sender {
            assert(queue_of(queues, sender) =~= Seq::<T>::empty());
            assert(queue_of(mid, sender) =~= Seq::<T>::empty());
            assert(Seq::<T>::empty() + queue_of(after, from) =~= seq![msg] + queue_of(mid, from));
        } else {
            assert(queue_of(after, from) == queue_of(mid, from));
        }
    }
}

/// A plain receive, told as an attempt of a replay.
pub open spec fn as_attempt<M, E>(got: Result<M, E>) -> Result<M, RecvErrorRR> {
    match got {
        Ok(m) => Ok(m),
        Err(_) => Err(RecvErrorRR::Disconnected),
    }
}

/// What `direct` allows, told as attempts of a replay.
pub open spec fn as_attempts<M, E>(direct: spec_fn(Result<M, E>) -> bool) -> spec_fn(
    Result<M, RecvErrorRR>,
) -> bool {
    |poll: Result<M, RecvErrorRR>|
        exists|got: Result<M, E>| #[trigger] direct(got) && poll == as_attempt(got)
}

/// A source that gives what `F` gives, for a plain receive and for an attempt of a replay.
#[verifier::reject_recursive_types(M)]
pub struct Direct<F, M> {
    pub tap: Tap<F, (), M>,
}

impl<I: View, T, E, F: Calls<(I, T), E>> Source<I, T, E> for Direct<F, (I, T)> {
    type End = F;

    open spec fn end(&self) -> F {
        self.tap.first()
    }

    open spec fn direct(&self) -> spec_fn(Result<(I, T), E>) -> bool {
        gives(self.tap.first())
    }

    open spec fn polled(&self) -> spec_fn(PollOf<I, T>) -> bool {
        as_attempts(gives::<(I, T), E, F>(self.tap.first()))
    }

    open spec fn came(&self) -> Seq<Option<(I, T)>> {
        self.tap.seen()
    }

    open spec fn can_recv(&self) -> bool {
        self.tap.first().ready()
    }

    open spec fn can_poll(&self) -> bool {
        self.tap.first().ready()
    }

    fn recv(&mut self) -> (got: Result<(I, T), E>) {
        self.tap.call_first()
    }

    fn poll(&mut self) -> (poll: PollOf<I, T>) {
        let ghost direct = gives::<(I, T), E, F>(self.tap.first());
        let got = self.tap.call_first::<E>();
        assert(direct(got));
        match got {
            Ok(m) => Ok(m),
            Err(_) => Err(RecvErrorRR::Disconnected),
        }
    }
}

/// Both hold the same messages of each sender, in the same order.
pub open spec fn same_messages<I: View, T>(
    one: Seq<Option<(I, T)>>,
    other: Seq<Option<(I, T)>>,
) -> bool {
    forall|from: I::V| #[trigger] came_from(one, from) == came_from(other, from)
}

/// Attempts that took nothing.
pub open spec fn nothing<M>(failed: nat) -> Seq<Option<M>> {
    Seq::new(failed, |i: int| None::<M>)
}

/// `now` is `earlier` after attempts that took nothing, and one that took `last`.
pub open spec fn took_last<M>(earlier: Seq<Option<M>>, last: Option<M>, now: Seq<Option<M>>) -> bool {
    exists|failed: nat| now == (earlier + #[trigger] nothing::<M>(failed)).push(last)
}

proof fn lemma_nothing_from<I: View, T>(failed: nat, from: I::V)
    ensures
        came_from(nothing::<(I, T)>(failed), from) == Seq::<T>::empty(),
    decreases failed,
{
    if failed > 0 {
        lemma_nothing_from::<I, T>((failed - 1) as nat, from);
        assert(nothing::<(I, T)>(failed).drop_last() =~= nothing::<(I, T)>((failed - 1) as nat));
    }
}

/// Attempts that took nothing make no difference.
pub proof fn lemma_took_last<I: View, T>(
    one: Seq<Option<(I, T)>>,
    other: Seq<Option<(I, T)>>,
    last: Option<(I, T)>,
    now: Seq<Option<(I, T)>>,
)
    requires
        same_messages(one, other),
        took_last(one, last, now),
    ensures
        same_messages(now, other.push(last)),
{
    let failed = choose|failed: nat|
        now == (one + #[trigger] nothing::<(I, T)>(failed)).push(last);
    let none = nothing::<(I, T)>(failed);
    assert forall|from: I::V| #[trigger]
        came_from(now, from) == came_from(other.push(last), from) by {
        lemma_nothing_from::<I, T>(failed, from);
        lemma_came_in_parts(one, none, from);
        assert(now.drop_last() =~= one + none);
        assert(other.push(last).drop_last() =~= other);
        assert(came_from(one, from) + Seq::<T>::empty() =~= came_from(one, from));
        assert(came_from(one, from) == came_from(other, from));
    }
}

} // verus!
