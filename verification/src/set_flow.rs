//! What becomes of all that comes from the receivers of a set.

use vstd::prelude::*;
use crate::error::RecvErrorRR;
use crate::ipc_message::{Attempt, IpcSelectionResult, OpaqueIpcMessage};
use crate::source::since;
use crate::thread_map::{dequeue, keep, queue_of};
use crate::wire::CallsAt;

verus! {

/// Attempts to take a message from receivers: the position, the receiver, and what came.
pub type Arrivals<R, A> = Seq<(int, R, Attempt<A>)>;

/// What a call for a receiver may give.
pub open spec fn gives_each<R, X, F: CallsAt<R, X>>(f: F) -> spec_fn(R, X) -> bool {
    |receiver: R, got: X| f.gives_at(receiver, got)
}

/// What a call for this receiver may give.
pub open spec fn gives_one<R, X, F: CallsAt<R, X>>(f: F, receiver: R) -> spec_fn(X) -> bool {
    |got: X| f.gives_at(receiver, got)
}

/// A call is allowed for every receiver.
pub open spec fn ready_for_all<R, X, F: CallsAt<R, X>>(f: F) -> bool {
    forall|receiver: R| #[trigger] f.ready_at(receiver)
}

/// The messages that came from the receiver at position `at` and were sent by `from`, oldest first.
/// `who` tells the sender of a message.
pub open spec fn arrived<K, R, A>(
    who: spec_fn(OpaqueIpcMessage<A>) -> Option<K>,
    seen: Arrivals<R, A>,
    at: int,
    from: K,
) -> Seq<OpaqueIpcMessage<A>>
    decreases seen.len(),
{
    if seen.len() == 0 {
        Seq::<OpaqueIpcMessage<A>>::empty()
    } else {
        arrived(who, seen.drop_last(), at, from) + arrival(who, seen.last(), at, from)
    }
}

/// The message of one attempt, if it came from the receiver at position `at` and was sent by `from`.
pub open spec fn arrival<K, R, A>(
    who: spec_fn(OpaqueIpcMessage<A>) -> Option<K>,
    last: (int, R, Attempt<A>),
    at: int,
    from: K,
) -> Seq<OpaqueIpcMessage<A>> {
    match last.2 {
        Attempt::Message(msg) => if last.0 == at && who(msg) == Some(from) {
            seq![msg]
        } else {
            Seq::<OpaqueIpcMessage<A>>::empty()
        },
        _ => Seq::<OpaqueIpcMessage<A>>::empty(),
    }
}

/// All attempts were made on the receiver at position `at`.
pub open spec fn all_at<R, A>(seen: Arrivals<R, A>, at: int, receiver: R) -> bool {
    forall|i: int| 0 <= i < seen.len() ==> (#[trigger] seen[i]).0 == at && seen[i].1 == receiver
}

/// All attempts were made on receivers of the set, each at its own position.
pub open spec fn on_receivers<R, A>(seen: Arrivals<R, A>, receivers: Seq<R>) -> bool {
    forall|i: int|
        0 <= i < seen.len() ==> {
            &&& 0 <= (#[trigger] seen[i]).0 < receivers.len()
            &&& seen[i].1 == receivers[seen[i].0]
        }
}

/// What comes in two stretches comes in both together, one after the other.
pub proof fn lemma_arrived_in_parts<K, R, A>(
    who: spec_fn(OpaqueIpcMessage<A>) -> Option<K>,
    first: Arrivals<R, A>,
    second: Arrivals<R, A>,
    at: int,
    from: K,
)
    ensures
        arrived(who, first + second, at, from) == arrived(who, first, at, from) + arrived(
            who,
            second,
            at,
            from,
        ),
    decreases second.len(),
{
    let one = arrived(who, first, at, from);
    if second.len() == 0 {
        assert(first + second =~= first);
        assert(one + Seq::<OpaqueIpcMessage<A>>::empty() =~= one);
    } else {
        lemma_arrived_in_parts(who, first, second.drop_last(), at, from);
        assert((first + second).drop_last() =~= first + second.drop_last());
        assert((first + second).last() == second.last());
        let two = arrived(who, second.drop_last(), at, from);
        let last = arrival(who, second.last(), at, from);
        assert((one + two) + last =~= one + (two + last));
    }
}

/// Nothing comes from a receiver that no attempt was made on.
pub proof fn lemma_elsewhere<K, R, A>(
    who: spec_fn(OpaqueIpcMessage<A>) -> Option<K>,
    seen: Arrivals<R, A>,
    here: int,
    receiver: R,
    at: int,
    from: K,
)
    requires
        all_at(seen, here, receiver),
        at != here,
    ensures
        arrived(who, seen, at, from) == Seq::<OpaqueIpcMessage<A>>::empty(),
    decreases seen.len(),
{
    if seen.len() > 0 {
        assert(seen[seen.len() - 1].0 == here);
        assert forall|i: int| 0 <= i < seen.drop_last().len() implies (
        #[trigger] seen.drop_last()[i]).0 == here && seen.drop_last()[i].1 == receiver by {
            assert(seen[i].0 == here);
        }
        lemma_elsewhere(who, seen.drop_last(), here, receiver, at, from);
        assert(arrived(who, seen, at, from) =~= Seq::<OpaqueIpcMessage<A>>::empty());
    }
}

/// `now` holds what `queues` held, and all messages that came from the receiver at position `at`, each
/// behind the others of its sender.
#[verifier::opaque]
pub open spec fn kept_all<K, R, A>(
    who: spec_fn(OpaqueIpcMessage<A>) -> Option<K>,
    queues: Map<K, Seq<OpaqueIpcMessage<A>>>,
    seen: Arrivals<R, A>,
    at: int,
    now: Map<K, Seq<OpaqueIpcMessage<A>>>,
) -> bool {
    forall|from: K| #[trigger]
        queue_of(now, from) == queue_of(queues, from) + arrived(who, seen, at, from)
}

/// The last attempt of a wait that gave `r`. All others failed.
pub open spec fn last_attempt<A>(r: Result<OpaqueIpcMessage<A>, RecvErrorRR>) -> Attempt<A> {
    match r {
        Ok(msg) => Attempt::Message(msg),
        Err(RecvErrorRR::Disconnected) => Attempt::Closed,
        Err(RecvErrorRR::Timeout) => Attempt::Failed,
    }
}

/// Attempts that failed.
pub open spec fn failures<R, A>(n: nat, at: int, receiver: R) -> Arrivals<R, A> {
    Seq::new(n, |i: int| (at, receiver, Attempt::Failed))
}

/// `now` is `earlier` after attempts on the receiver at position `at`: some that failed, and one that
/// gave `last`.
pub open spec fn tried<R, A>(
    earlier: Arrivals<R, A>,
    at: int,
    receiver: R,
    last: Attempt<A>,
    now: Arrivals<R, A>,
) -> bool {
    exists|n: nat|
        now == (earlier + #[trigger] failures::<R, A>(n, at, receiver)).push((at, receiver, last))
}

proof fn lemma_failures<K, R, A>(
    who: spec_fn(OpaqueIpcMessage<A>) -> Option<K>,
    n: nat,
    here: int,
    receiver: R,
    at: int,
    from: K,
)
    ensures
        arrived(who, failures::<R, A>(n, here, receiver), at, from) == Seq::<
            OpaqueIpcMessage<A>,
        >::empty(),
    decreases n,
{
    let seen = failures::<R, A>(n, here, receiver);
    if n > 0 {
        lemma_failures::<K, R, A>(who, (n - 1) as nat, here, receiver, at, from);
        assert(seen.drop_last() =~= failures::<R, A>((n - 1) as nat, here, receiver));
        assert(arrived(who, seen, at, from) =~= Seq::<OpaqueIpcMessage<A>>::empty());
    }
}

/// Attempts that failed make no difference.
pub proof fn lemma_tried<K, R, A>(
    who: spec_fn(OpaqueIpcMessage<A>) -> Option<K>,
    earlier: Arrivals<R, A>,
    here: int,
    receiver: R,
    last: Attempt<A>,
    now: Arrivals<R, A>,
    at: int,
    from: K,
)
    requires
        tried(earlier, here, receiver, last, now),
    ensures
        arrived(who, now, at, from) == arrived(who, earlier, at, from) + arrival(
            who,
            (here, receiver, last),
            at,
            from,
        ),
{
    let n = choose|n: nat|
        now == (earlier + #[trigger] failures::<R, A>(n, here, receiver)).push(
            (here, receiver, last),
        );
    let failed = failures::<R, A>(n, here, receiver);
    lemma_failures::<K, R, A>(who, n, here, receiver, at, from);
    lemma_arrived_in_parts(who, earlier, failed, at, from);
    assert(now.drop_last() =~= earlier + failed);
    assert(arrived(who, earlier, at, from) + Seq::<OpaqueIpcMessage<A>>::empty() =~= arrived(
        who,
        earlier,
        at,
        from,
    ));
}

/// One attempt follows others at once.
pub proof fn lemma_tried_once<R, A>(earlier: Arrivals<R, A>, at: int, receiver: R, last: Attempt<A>)
    ensures
        tried(earlier, at, receiver, last, earlier.push((at, receiver, last))),
{
    let none = failures::<R, A>(0, at, receiver);
    assert(earlier + none =~= earlier);
    assert(earlier.push((at, receiver, last)) == (earlier + none).push((at, receiver, last)));
}

/// Attempts that follow what was seen since `seen` follow what was seen before, too.
pub proof fn lemma_tried_since<R, A>(
    seen: Arrivals<R, A>,
    earlier: Arrivals<R, A>,
    at: int,
    receiver: R,
    last: Attempt<A>,
    now: Arrivals<R, A>,
)
    requires
        tried(seen + earlier, at, receiver, last, now),
    ensures
        tried(earlier, at, receiver, last, since(seen, now)),
        now == seen + since(seen, now),
{
    let n = choose|n: nat|
        now == ((seen + earlier) + #[trigger] failures::<R, A>(n, at, receiver)).push(
            (at, receiver, last),
        );
    let failed = failures::<R, A>(n, at, receiver);
    assert(since(seen, now) =~= (earlier + failed).push((at, receiver, last)));
    assert(now =~= seen + since(seen, now));
}

/// Attempts on one receiver are followed by more attempts on it.
pub proof fn lemma_still_at<R, A>(
    earlier: Arrivals<R, A>,
    at: int,
    receiver: R,
    last: Attempt<A>,
    now: Arrivals<R, A>,
)
    requires
        all_at(earlier, at, receiver),
        tried(earlier, at, receiver, last, now),
    ensures
        all_at(now, at, receiver),
{
    let n = choose|n: nat|
        now == (earlier + #[trigger] failures::<R, A>(n, at, receiver)).push((at, receiver, last));
    assert forall|i: int| 0 <= i < now.len() implies (#[trigger] now[i]).0 == at && now[i].1
        == receiver by {
        if i < earlier.len() {
            assert(now[i] == earlier[i]);
        }
    }
}

/// At first nothing came.
pub proof fn lemma_kept_at_first<K, R, A>(
    who: spec_fn(OpaqueIpcMessage<A>) -> Option<K>,
    queues: Map<K, Seq<OpaqueIpcMessage<A>>>,
    at: int,
)
    ensures
        kept_all::<K, R, A>(who, queues, Seq::empty(), at, queues),
{
    reveal(kept_all);
    assert forall|from: K| #[trigger]
        queue_of(queues, from) == queue_of(queues, from) + arrived::<K, R, A>(
            who,
            Seq::empty(),
            at,
            from,
        ) by {
        assert(queue_of(queues, from) + Seq::<OpaqueIpcMessage<A>>::empty() =~= queue_of(
            queues,
            from,
        ));
    }
}

/// One more message came and is kept.
pub proof fn lemma_kept_one_more<K, R, A>(
    who: spec_fn(OpaqueIpcMessage<A>) -> Option<K>,
    queues: Map<K, Seq<OpaqueIpcMessage<A>>>,
    seen: Arrivals<R, A>,
    at: int,
    receiver: R,
    now: Map<K, Seq<OpaqueIpcMessage<A>>>,
    msg: OpaqueIpcMessage<A>,
    sender: K,
    seen_after: Arrivals<R, A>,
)
    requires
        kept_all(who, queues, seen, at, now),
        who(msg) == Some(sender),
        tried(seen, at, receiver, Attempt::Message(msg), seen_after),
    ensures
        kept_all(who, queues, seen_after, at, keep(now, sender, msg)),
{
    reveal(kept_all);
    let after = keep(now, sender, msg);
    assert forall|from: K| #[trigger]
        queue_of(after, from) == queue_of(queues, from) + arrived(who, seen_after, at, from) by {
        lemma_tried(who, seen, at, receiver, Attempt::Message(msg), seen_after, at, from);
        assert(queue_of(now, from) == queue_of(queues, from) + arrived(who, seen, at, from));
        assert(queue_of(after, from) =~= queue_of(queues, from) + arrived(
            who,
            seen_after,
            at,
            from,
        ));
    }
}

/// Attempts that take no message leave all as it is.
pub proof fn lemma_kept_nothing<K, R, A>(
    who: spec_fn(OpaqueIpcMessage<A>) -> Option<K>,
    queues: Map<K, Seq<OpaqueIpcMessage<A>>>,
    seen: Arrivals<R, A>,
    at: int,
    receiver: R,
    now: Map<K, Seq<OpaqueIpcMessage<A>>>,
    last: Attempt<A>,
    seen_after: Arrivals<R, A>,
)
    requires
        kept_all(who, queues, seen, at, now),
        last matches Attempt::Message(msg) ==> who(msg) is None,
        tried(seen, at, receiver, last, seen_after),
    ensures
        kept_all(who, queues, seen_after, at, now),
{
    reveal(kept_all);
    assert forall|from: K| #[trigger]
        queue_of(now, from) == queue_of(queues, from) + arrived(who, seen_after, at, from) by {
        lemma_tried(who, seen, at, receiver, last, seen_after, at, from);
        assert(queue_of(now, from) == queue_of(queues, from) + arrived(who, seen, at, from));
        assert(arrived(who, seen_after, at, from) =~= arrived(who, seen, at, from));
    }
}

/// A wait for a message from `sender` on the receiver at position `at`: what is found, followed by what
/// is kept afterwards, is what was kept before followed by what came.
#[verifier::opaque]
pub open spec fn wait_kept<K, R, A>(
    who: spec_fn(OpaqueIpcMessage<A>) -> Option<K>,
    queues: Map<K, Seq<OpaqueIpcMessage<A>>>,
    seen: Arrivals<R, A>,
    at: int,
    sender: K,
    found: Option<OpaqueIpcMessage<A>>,
    after: Map<K, Seq<OpaqueIpcMessage<A>>>,
) -> bool {
    forall|from: K| #[trigger]
        (found_at(sender, found, from) + queue_of(after, from)) == queue_of(queues, from) + arrived(
            who,
            seen,
            at,
            from,
        )
}

/// What was found of the messages of `from` in a wait for `sender`.
pub open spec fn found_at<K, M>(sender: K, found: Option<M>, from: K) -> Seq<M> {
    match found {
        Some(msg) => if sender == from {
            seq![msg]
        } else {
            Seq::<M>::empty()
        },
        None => Seq::<M>::empty(),
    }
}

/// A message that was kept is found.
pub proof fn lemma_found_kept<K, R, A>(
    who: spec_fn(OpaqueIpcMessage<A>) -> Option<K>,
    queues: Map<K, Seq<OpaqueIpcMessage<A>>>,
    at: int,
    sender: K,
)
    requires
        queue_of(queues, sender).len() > 0,
    ensures
        wait_kept::<K, R, A>(
            who,
            queues,
            Seq::empty(),
            at,
            sender,
            Some(queue_of(queues, sender)[0]),
            dequeue(queues, sender),
        ),
{
    reveal(wait_kept);
    let after = dequeue(queues, sender);
    let found = Some(queue_of(queues, sender)[0]);
    assert forall|from: K| #[trigger]
        (found_at(sender, found, from) + queue_of(after, from)) == queue_of(queues, from)
            + arrived::<K, R, A>(who, Seq::empty(), at, from) by {
        assert(found_at(sender, found, from) + queue_of(after, from) =~= queue_of(queues, from)
            + arrived::<K, R, A>(who, Seq::empty(), at, from));
    }
}

/// The message that came last is the one that is waited for, and none of its sender is kept.
pub proof fn lemma_found_new<K, R, A>(
    who: spec_fn(OpaqueIpcMessage<A>) -> Option<K>,
    queues: Map<K, Seq<OpaqueIpcMessage<A>>>,
    seen: Arrivals<R, A>,
    at: int,
    receiver: R,
    now: Map<K, Seq<OpaqueIpcMessage<A>>>,
    msg: OpaqueIpcMessage<A>,
    sender: K,
    seen_after: Arrivals<R, A>,
)
    requires
        kept_all(who, queues, seen, at, now),
        queue_of(now, sender).len() == 0,
        who(msg) == Some(sender),
        tried(seen, at, receiver, Attempt::Message(msg), seen_after),
    ensures
        wait_kept(who, queues, seen_after, at, sender, Some(msg), now),
{
    reveal(kept_all);
    reveal(wait_kept);
    assert forall|from: K| #[trigger]
        (found_at(sender, Some(msg), from) + queue_of(now, from)) == queue_of(queues, from)
            + arrived(who, seen_after, at, from) by {
        lemma_tried(who, seen, at, receiver, Attempt::Message(msg), seen_after, at, from);
        assert(queue_of(now, from) == queue_of(queues, from) + arrived(who, seen, at, from));
        assert(found_at(sender, Some(msg), from) + queue_of(now, from) =~= queue_of(queues, from)
            + arrived(who, seen_after, at, from));
    }
}

/// Nothing was found.
pub proof fn lemma_found_none<K, R, A>(
    who: spec_fn(OpaqueIpcMessage<A>) -> Option<K>,
    queues: Map<K, Seq<OpaqueIpcMessage<A>>>,
    seen: Arrivals<R, A>,
    at: int,
    sender: K,
    now: Map<K, Seq<OpaqueIpcMessage<A>>>,
)
    requires
        kept_all(who, queues, seen, at, now),
    ensures
        wait_kept(who, queues, seen, at, sender, None, now),
{
    reveal(kept_all);
    reveal(wait_kept);
    assert forall|from: K| #[trigger]
        (found_at(sender, None, from) + queue_of(now, from)) == queue_of(queues, from) + arrived(
            who,
            seen,
            at,
            from,
        ) by {
        assert(queue_of(now, from) == queue_of(queues, from) + arrived(who, seen, at, from));
        assert(found_at(sender, None::<OpaqueIpcMessage<A>>, from) + queue_of(now, from)
            =~= queue_of(now, from));
    }
}

/// The results that were logged for messages from `from` at position `at`, in this order. `slots` tells
/// the position and the sender that each result was logged with, if it was a message.
pub open spec fn handed<K, A>(
    slots: Seq<Option<(int, K)>>,
    results: Seq<IpcSelectionResult<A>>,
    at: int,
    from: K,
) -> Seq<OpaqueIpcMessage<A>>
    decreases slots.len(),
{
    if slots.len() == 0 {
        Seq::<OpaqueIpcMessage<A>>::empty()
    } else {
        handed(slots.drop_last(), results.drop_last(), at, from) + handed_one(
            slots.last(),
            results.last(),
            at,
            from,
        )
    }
}

/// The message of one result, if it was logged for `from` at position `at`.
pub open spec fn handed_one<K, A>(
    slot: Option<(int, K)>,
    result: IpcSelectionResult<A>,
    at: int,
    from: K,
) -> Seq<OpaqueIpcMessage<A>> {
    match result {
        IpcSelectionResult::MessageReceived(_, msg) => if slot == Some((at, from)) {
            seq![msg]
        } else {
            Seq::<OpaqueIpcMessage<A>>::empty()
        },
        IpcSelectionResult::ChannelClosed(_) => Seq::<OpaqueIpcMessage<A>>::empty(),
    }
}

/// The message that came instead of a logged result, if it came from `from` at position `at`.
pub open spec fn came_instead<K, A>(
    who: spec_fn(OpaqueIpcMessage<A>) -> Option<K>,
    last: Option<IpcSelectionResult<A>>,
    at: int,
    from: K,
) -> Seq<OpaqueIpcMessage<A>> {
    match last {
        Some(IpcSelectionResult::MessageReceived(index, msg)) => if index == at && who(msg) == Some(
            from,
        ) {
            seq![msg]
        } else {
            Seq::<OpaqueIpcMessage<A>>::empty()
        },
        _ => Seq::<OpaqueIpcMessage<A>>::empty(),
    }
}

/// Of the messages from `from` at position `at`: the results, what is kept afterwards, and what came
/// last are, one after the other, what was kept before and what came.
pub open spec fn set_balanced<K, R, A>(
    who: spec_fn(OpaqueIpcMessage<A>) -> Option<K>,
    before: Seq<Map<K, Seq<OpaqueIpcMessage<A>>>>,
    seen: Arrivals<R, A>,
    slots: Seq<Option<(int, K)>>,
    results: Seq<IpcSelectionResult<A>>,
    last: Option<IpcSelectionResult<A>>,
    after: Seq<Map<K, Seq<OpaqueIpcMessage<A>>>>,
    at: int,
    from: K,
) -> bool {
    (handed(slots, results, at, from) + queue_of(after[at], from)) + came_instead(
        who,
        last,
        at,
        from,
    ) == queue_of(before[at], from) + arrived(who, seen, at, from)
}

/// No message that came from a receiver of the set is lost, made up or moved before another of its
/// sender.
pub open spec fn set_accounted<K, R, A>(
    who: spec_fn(OpaqueIpcMessage<A>) -> Option<K>,
    before: Seq<Map<K, Seq<OpaqueIpcMessage<A>>>>,
    seen: Arrivals<R, A>,
    slots: Seq<Option<(int, K)>>,
    results: Seq<IpcSelectionResult<A>>,
    last: Option<IpcSelectionResult<A>>,
    after: Seq<Map<K, Seq<OpaqueIpcMessage<A>>>>,
) -> bool {
    &&& after.len() == before.len()
    &&& slots.len() == results.len()
    &&& forall|at: int, from: K|
        0 <= at < before.len() ==> #[trigger] set_balanced(
            who,
            before,
            seen,
            slots,
            results,
            last,
            after,
            at,
            from,
        )
}

/// Where nothing is tried and nothing is handed out, nothing is lost.
pub proof fn lemma_set_idle<K, R, A>(
    who: spec_fn(OpaqueIpcMessage<A>) -> Option<K>,
    queues: Seq<Map<K, Seq<OpaqueIpcMessage<A>>>>,
)
    ensures
        set_accounted::<K, R, A>(
            who,
            queues,
            Seq::empty(),
            Seq::empty(),
            Seq::empty(),
            None,
            queues,
        ),
{
    assert forall|at: int, from: K| 0 <= at < queues.len() implies #[trigger] set_balanced::<
        K,
        R,
        A,
    >(who, queues, Seq::empty(), Seq::empty(), Seq::empty(), None, queues, at, from) by {
        let none = Seq::<OpaqueIpcMessage<A>>::empty();
        assert((none + queue_of(queues[at], from)) + none =~= queue_of(queues[at], from) + none);
    }
}

proof fn lemma_handed_in_parts<K, A>(
    slots: Seq<Option<(int, K)>>,
    results: Seq<IpcSelectionResult<A>>,
    more_slots: Seq<Option<(int, K)>>,
    more: Seq<IpcSelectionResult<A>>,
    at: int,
    from: K,
)
    requires
        slots.len() == results.len(),
        more_slots.len() == more.len(),
    ensures
        handed(slots + more_slots, results + more, at, from) == handed(slots, results, at, from)
            + handed(more_slots, more, at, from),
    decreases more.len(),
{
    let one = handed(slots, results, at, from);
    if more.len() == 0 {
        assert(slots + more_slots =~= slots);
        assert(results + more =~= results);
        assert(one + Seq::<OpaqueIpcMessage<A>>::empty() =~= one);
    } else {
        lemma_handed_in_parts(
            slots,
            results,
            more_slots.drop_last(),
            more.drop_last(),
            at,
            from,
        );
        assert((slots + more_slots).drop_last() =~= slots + more_slots.drop_last());
        assert((results + more).drop_last() =~= results + more.drop_last());
        let two = handed(more_slots.drop_last(), more.drop_last(), at, from);
        let last = handed_one(more_slots.last(), more.last(), at, from);
        assert((one + two) + last =~= one + (two + last));
    }
}

/// One stretch of results follows another.
pub proof fn lemma_set_chain<K, R, A>(
    who: spec_fn(OpaqueIpcMessage<A>) -> Option<K>,
    before: Seq<Map<K, Seq<OpaqueIpcMessage<A>>>>,
    seen: Arrivals<R, A>,
    slots: Seq<Option<(int, K)>>,
    results: Seq<IpcSelectionResult<A>>,
    mid: Seq<Map<K, Seq<OpaqueIpcMessage<A>>>>,
    more_seen: Arrivals<R, A>,
    more_slots: Seq<Option<(int, K)>>,
    more: Seq<IpcSelectionResult<A>>,
    last: Option<IpcSelectionResult<A>>,
    after: Seq<Map<K, Seq<OpaqueIpcMessage<A>>>>,
)
    requires
        set_accounted(who, before, seen, slots, results, None, mid),
        set_accounted(who, mid, more_seen, more_slots, more, last, after),
    ensures
        set_accounted(
            who,
            before,
            seen + more_seen,
            slots + more_slots,
            results + more,
            last,
            after,
        ),
{
    assert forall|at: int, from: K| 0 <= at < before.len() implies #[trigger] set_balanced(
        who,
        before,
        seen + more_seen,
        slots + more_slots,
        results + more,
        last,
        after,
        at,
        from,
    ) by {
        assert(set_balanced(who, before, seen, slots, results, None, mid, at, from));
        assert(set_balanced(who, mid, more_seen, more_slots, more, last, after, at, from));
        lemma_handed_in_parts(slots, results, more_slots, more, at, from);
        lemma_arrived_in_parts(who, seen, more_seen, at, from);
        let h1 = handed(slots, results, at, from);
        let h2 = handed(more_slots, more, at, from);
        let a1 = arrived(who, seen, at, from);
        let a2 = arrived(who, more_seen, at, from);
        let q0 = queue_of(before[at], from);
        let q1 = queue_of(mid[at], from);
        let q2 = queue_of(after[at], from);
        let l = came_instead(who, last, at, from);
        assert((h1 + q1) + Seq::<OpaqueIpcMessage<A>>::empty() =~= h1 + q1);
        assert(((h1 + h2) + q2) + l =~= h1 + ((h2 + q2) + l));
        assert(h1 + (q1 + a2) =~= (h1 + q1) + a2);
        assert((q0 + a1) + a2 =~= q0 + (a1 + a2));
    }
}

/// A wait for a message from `sender` at position `i` hands it out as a result, or gives nothing.
pub proof fn lemma_set_wait<K, R, A>(
    who: spec_fn(OpaqueIpcMessage<A>) -> Option<K>,
    before: Seq<Map<K, Seq<OpaqueIpcMessage<A>>>>,
    seen: Arrivals<R, A>,
    i: int,
    receiver: R,
    sender: K,
    found: Option<OpaqueIpcMessage<A>>,
    slots: Seq<Option<(int, K)>>,
    results: Seq<IpcSelectionResult<A>>,
    last: Option<IpcSelectionResult<A>>,
    after: Seq<Map<K, Seq<OpaqueIpcMessage<A>>>>,
)
    requires
        0 <= i < before.len(),
        after.len() == before.len(),
        forall|j: int| 0 <= j < before.len() && j != i ==> #[trigger] after[j] == before[j],
        all_at(seen, i, receiver),
        wait_kept(who, before[i], seen, i, sender, found, after[i]),
        match found {
            Some(msg) => {
                &&& slots == seq![Some((i, sender))]
                &&& exists|index: u64| results == seq![#[trigger] received(index, msg)]
            },
            None => slots.len() == 0 && results.len() == 0,
        },
        !(last matches Some(IpcSelectionResult::MessageReceived(_, _))),
    ensures
        set_accounted(who, before, seen, slots, results, last, after),
{
    reveal(wait_kept);
    assert forall|at: int, from: K| 0 <= at < before.len() implies #[trigger] set_balanced(
        who,
        before,
        seen,
        slots,
        results,
        last,
        after,
        at,
        from,
    ) by {
        let none = Seq::<OpaqueIpcMessage<A>>::empty();
        let h = handed(slots, results, at, from);
        let f = found_at(sender, found, from);
        assert(came_instead(who, last, at, from) =~= none);
        if found is Some {
            assert(slots.drop_last() =~= Seq::<Option<(int, K)>>::empty());
            assert(handed(slots.drop_last(), results.drop_last(), at, from) =~= none);
            assert(h =~= handed_one(slots.last(), results.last(), at, from));
        } else {
            assert(h =~= none);
        }
        if at == i {
            assert(h =~= f);
            assert(f + queue_of(after[i], from) == queue_of(before[i], from) + arrived(
                who,
                seen,
                i,
                from,
            ));
            assert((h + queue_of(after[at], from)) + none =~= f + queue_of(after[i], from));
        } else {
            lemma_elsewhere(who, seen, i, receiver, at, from);
            assert(h =~= none);
            assert(after[at] == before[at]);
            assert((h + queue_of(after[at], from)) + none =~= queue_of(before[at], from) + none);
        }
    }
}

/// A message as the result of a select.
pub open spec fn received<A>(index: u64, msg: OpaqueIpcMessage<A>) -> IpcSelectionResult<A> {
    IpcSelectionResult::MessageReceived(index, msg)
}

/// A wait for the end of the channel at position `i`. A message that comes instead is not lost.
pub proof fn lemma_set_close<K, R, A>(
    who: spec_fn(OpaqueIpcMessage<A>) -> Option<K>,
    queues: Seq<Map<K, Seq<OpaqueIpcMessage<A>>>>,
    seen: Arrivals<R, A>,
    index: u64,
    receiver: R,
    attempt: Attempt<A>,
    slots: Seq<Option<(int, K)>>,
    results: Seq<IpcSelectionResult<A>>,
    last: Option<IpcSelectionResult<A>>,
)
    requires
        index < queues.len(),
        tried(Seq::empty(), index as int, receiver, attempt, seen),
        match attempt {
            Attempt::Message(msg) => {
                &&& last == Some(IpcSelectionResult::MessageReceived(index, msg))
                &&& slots.len() == 0
                &&& results.len() == 0
            },
            _ => {
                &&& !(last matches Some(IpcSelectionResult::MessageReceived(_, _)))
                &&& slots.len() == results.len() <= 1
                &&& results.len() == 1 ==> slots[0] is None
            },
        },
    ensures
        set_accounted(who, queues, seen, slots, results, last, queues),
{
    assert forall|at: int, from: K| 0 <= at < queues.len() implies #[trigger] set_balanced(
        who,
        queues,
        seen,
        slots,
        results,
        last,
        queues,
        at,
        from,
    ) by {
        let none = Seq::<OpaqueIpcMessage<A>>::empty();
        lemma_tried(who, Seq::empty(), index as int, receiver, attempt, seen, at, from);
        let one = arrival(who, (index as int, receiver, attempt), at, from);
        assert(arrived(who, seen, at, from) =~= one);
        let h = handed(slots, results, at, from);
        if slots.len() == 1 {
            assert(slots.drop_last() =~= Seq::<Option<(int, K)>>::empty());
            assert(handed(slots.drop_last(), results.drop_last(), at, from) =~= none);
            assert(slots.last() is None);
        }
        assert(h =~= none);
        assert(came_instead(who, last, at, from) =~= one);
        assert((h + queue_of(queues[at], from)) + one =~= queue_of(queues[at], from) + one);
    }
}

} // verus!
