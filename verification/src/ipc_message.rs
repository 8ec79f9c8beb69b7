//! Messages of inter-process channels that are not decoded, and waiting for them.

use vstd::prelude::*;
use crate::detthread::{is_path, DetThreadId};
use crate::error::{DesyncErrorView, RecvErrorRR};
use crate::ipc::ATTEMPTS;
use crate::rr::{expected_recv, is_other, recv_expected, stash, Poll};
use crate::set_flow::{
    all_at, failures, gives_one, kept_all, last_attempt, lemma_found_kept, lemma_found_new,
    lemma_found_none, lemma_kept_at_first, lemma_kept_nothing, lemma_kept_one_more, lemma_still_at,
    lemma_tried_since, tried, wait_kept,
};
use crate::source::since;
use crate::thread_map::{contents, queue_of, BufferedValues};
use crate::wire::{decode_numbers, le_value, CallsAt, SetTap};

verus! {

/// A message that is not decoded. `A` are the things other than bytes that travel with it.
#[derive(Debug)]
pub struct OpaqueIpcMessage<A> {
    pub data: Vec<u8>,
    pub attached: A,
}

impl<A> OpaqueIpcMessage<A> {
    pub fn new(data: Vec<u8>, attached: A) -> (msg: OpaqueIpcMessage<A>)
        ensures
            msg == (OpaqueIpcMessage { data, attached }),
    {
        OpaqueIpcMessage { data, attached }
    }
}

/// A result of a select.
pub enum IpcSelectionResult<A> {
    /// A message came from the receiver at this index.
    MessageReceived(u64, OpaqueIpcMessage<A>),
    /// The channel of the receiver at this index was closed.
    ChannelClosed(u64),
}

impl<A> IpcSelectionResult<A> {
    /// The index and the message. To be called for a message only.
    pub fn unwrap(self) -> (r: (u64, OpaqueIpcMessage<A>))
        requires
            self is MessageReceived,
        ensures
            self == IpcSelectionResult::MessageReceived(r.0, r.1),
    {
        match self {
            IpcSelectionResult::MessageReceived(id, message) => (id, message),
            IpcSelectionResult::ChannelClosed(_) => vstd::pervasive::unreached(),
        }
    }
}

/// The numbers that `data` starts with: those of a path, and its length.
pub open spec fn id_numbers(data: Seq<u8>) -> Seq<u32> {
    Seq::new(10, |i: int| le_value(data.subrange(4 * i, 4 * i + 4)) as u32)
}

/// The length of the path that `data` starts with.
pub open spec fn id_size(data: Seq<u8>) -> u64 {
    le_value(data.subrange(40, 48)) as u64
}

/// The thread that sent the message with the bytes `data`. Every message starts with its sender.
pub open spec fn sender_of(data: Seq<u8>) -> Option<Seq<u32>> {
    if data.len() >= 48 && is_path(id_numbers(data), id_size(data)) {
        Some(id_numbers(data).subrange(0, id_size(data) as int))
    } else {
        None
    }
}

/// The thread that sent the message.
pub fn deserialize_id<A>(opaque_msg: &OpaqueIpcMessage<A>) -> (id: Option<DetThreadId>)
    ensures
        match id {
            Some(id) => sender_of(opaque_msg.data@) == Some(id@),
            None => sender_of(opaque_msg.data@) is None,
        },
{
    match decode_numbers(&opaque_msg.data) {
        Some((ids, size)) => {
            assert(ids@ =~= id_numbers(opaque_msg.data@));
            DetThreadId::from_parts(ids, size)
        },
        None => None,
    }
}

/// What one attempt to take a message from a receiver gives.
pub enum Attempt<A> {
    Message(OpaqueIpcMessage<A>),
    /// The channel is closed.
    Closed,
    /// There is no message yet, or it cannot be had.
    Failed,
}

/// What a wait that consists of `attempts` gives. All but the last failed.
pub open spec fn waited_opaque<A>(
    attempts: Seq<Attempt<A>>,
    r: Result<OpaqueIpcMessage<A>, RecvErrorRR>,
) -> bool {
    &&& 0 < attempts.len() <= ATTEMPTS
    &&& forall|i: int| 0 <= i < attempts.len() - 1 ==> (#[trigger] attempts[i]) is Failed
    &&& match attempts.last() {
        Attempt::Message(m) => r == Ok::<OpaqueIpcMessage<A>, RecvErrorRR>(m),
        Attempt::Closed => r == Err::<OpaqueIpcMessage<A>, RecvErrorRR>(RecvErrorRR::Disconnected),
        Attempt::Failed => {
            &&& attempts.len() == ATTEMPTS
            &&& r == Err::<OpaqueIpcMessage<A>, RecvErrorRR>(RecvErrorRR::Timeout)
        },
    }
}

/// A wait whose attempts are allowed by `tries` may give `r`.
pub open spec fn wait_gives_opaque<A>(
    tries: spec_fn(Attempt<A>) -> bool,
    r: Result<OpaqueIpcMessage<A>, RecvErrorRR>,
) -> bool {
    exists|attempts: Seq<Attempt<A>>|
        {
            &&& #[trigger] waited_opaque(attempts, r)
            &&& forall|i: int| 0 <= i < attempts.len() ==> tries(#[trigger] attempts[i])
        }
}

/// Such a wait pauses after every attempt that failed.
pub open spec fn paused_wait_gives_opaque<A>(
    tries: spec_fn(Attempt<A>) -> bool,
    pauses: bool,
    r: Result<OpaqueIpcMessage<A>, RecvErrorRR>,
) -> bool {
    exists|attempts: Seq<Attempt<A>>|
        {
            &&& #[trigger] waited_opaque(attempts, r)
            &&& forall|i: int| 0 <= i < attempts.len() ==> tries(#[trigger] attempts[i])
            &&& attempts[0] is Failed ==> pauses
        }
}

/// The sender of a message, if it can be read.
pub open spec fn sender_in<A>() -> spec_fn(OpaqueIpcMessage<A>) -> Option<Seq<u32>> {
    |msg: OpaqueIpcMessage<A>| sender_of(msg.data@)
}

/// Tries to take a message until one comes or the channel is closed, but not for ever. Pauses after
/// every attempt that failed. The receiver is the one at position `at`.
pub fn rr_recv<R, A, F: CallsAt<R, Attempt<A>>, S: Fn()>(
    opaque_receiver: &R,
    at: Ghost<int>,
    tap: &mut SetTap<F, R, Attempt<A>>,
    pause: &S,
) -> (r: Result<OpaqueIpcMessage<A>, RecvErrorRR>)
    requires
        old(tap).calls().ready_at(*opaque_receiver),
        call_requires(*pause, ()),
    ensures
        final(tap).calls() == old(tap).calls(),
        tried(old(tap).seen(), at@, *opaque_receiver, last_attempt(r), final(tap).seen()),
        wait_gives_opaque(gives_one(old(tap).calls(), *opaque_receiver), r),
        paused_wait_gives_opaque(
            gives_one(old(tap).calls(), *opaque_receiver),
            call_ensures(*pause, (), ()),
            r,
        ),
{
    let ghost tries = gives_one::<R, Attempt<A>, F>(tap.calls(), *opaque_receiver);
    let ghost mut attempts: Seq<Attempt<A>> = Seq::empty();
    let mut i: usize = 0;
    assert(tap.seen() + failures::<R, A>(0, at@, *opaque_receiver) =~= tap.seen());
    while i < ATTEMPTS
        invariant
            i <= ATTEMPTS,
            attempts.len() == i,
            tap.calls() == old(tap).calls(),
            tap.seen() == old(tap).seen() + failures::<R, A>(i as nat, at@, *opaque_receiver),
            tries == gives_one::<R, Attempt<A>, F>(tap.calls(), *opaque_receiver),
            tap.calls().ready_at(*opaque_receiver),
            call_requires(*pause, ()),
            i > 0 ==> call_ensures(*pause, (), ()),
            forall|j: int|
                0 <= j < i ==> {
                    &&& (#[trigger] attempts[j]) is Failed
                    &&& tries(attempts[j])
                },
        decreases ATTEMPTS - i,
    {
        let got = tap.call(opaque_receiver, at);
        proof {
            attempts = attempts.push(got);
            assert(attempts.last() == got);
        }
        match got {
            Attempt::Message(m) => {
                assert(waited_opaque(attempts, Ok::<OpaqueIpcMessage<A>, RecvErrorRR>(m)));
                return Ok(m);
            },
            Attempt::Closed => {
                assert(waited_opaque(
                    attempts,
                    Err::<OpaqueIpcMessage<A>, RecvErrorRR>(RecvErrorRR::Disconnected),
                ));
                return Err(RecvErrorRR::Disconnected);
            },
            Attempt::Failed => {
                assert(tap.seen() =~= old(tap).seen() + failures::<R, A>(
                    (i + 1) as nat,
                    at@,
                    *opaque_receiver,
                ));
                pause();
            },
        }
        i += 1;
    }
    assert(attempts[9] is Failed);
    assert(waited_opaque(
        attempts,
        Err::<OpaqueIpcMessage<A>, RecvErrorRR>(RecvErrorRR::Timeout),
    ));
    assert(tap.seen() =~= (old(tap).seen() + failures::<R, A>(9, at@, *opaque_receiver)).push(
        (at@, *opaque_receiver, Attempt::Failed),
    ));
    Err(RecvErrorRR::Timeout)
}

/// What came of a wait for a message from one sender.
pub enum Waited<A> {
    Found(OpaqueIpcMessage<A>),
    Closed,
    TimedOut,
    /// A message came whose sender cannot be read.
    Unreadable,
}

/// A wait seen as one for messages with their senders.
pub open spec fn opaque_polls<A>(tries: spec_fn(Attempt<A>) -> bool) -> spec_fn(
    Poll<OpaqueIpcMessage<A>>,
) -> bool {
    |poll: Poll<OpaqueIpcMessage<A>>|
        match poll {
            Ok((id, msg)) => {
                &&& sender_of(msg.data@) == Some(id@)
                &&& wait_gives_opaque(tries, Ok::<OpaqueIpcMessage<A>, RecvErrorRR>(msg))
            },
            Err(e) => wait_gives_opaque(tries, Err::<OpaqueIpcMessage<A>, RecvErrorRR>(e)),
        }
}

/// Messages from others than `sender` came and are kept, and then one whose sender cannot be read.
pub open spec fn hit_unreadable<A>(
    queues: Map<Seq<u32>, Seq<OpaqueIpcMessage<A>>>,
    sender: Seq<u32>,
    tries: spec_fn(Attempt<A>) -> bool,
    after: Map<Seq<u32>, Seq<OpaqueIpcMessage<A>>>,
) -> bool {
    &&& queue_of(queues, sender).len() == 0
    &&& exists|polls: Seq<Poll<OpaqueIpcMessage<A>>>, msg: OpaqueIpcMessage<A>|
        {
            &&& after == #[trigger] stash(queues, polls)
            &&& forall|i: int|
                0 <= i < polls.len() ==> {
                    &&& is_other(#[trigger] polls[i], sender)
                    &&& opaque_polls(tries)(polls[i])
                }
            &&& #[trigger] wait_gives_opaque(tries, Ok::<OpaqueIpcMessage<A>, RecvErrorRR>(msg))
            &&& sender_of(msg.data@) is None
        }
}

/// What may come of a wait for a message from `sender`.
pub open spec fn wait_relation<A>(
    queues: Map<Seq<u32>, Seq<OpaqueIpcMessage<A>>>,
    sender: Seq<u32>,
    tries: spec_fn(Attempt<A>) -> bool,
    r: Waited<A>,
    after: Map<Seq<u32>, Seq<OpaqueIpcMessage<A>>>,
) -> bool {
    match r {
        Waited::Found(msg) => recv_expected(queues, sender, opaque_polls(tries), Ok(msg), after),
        Waited::Closed => recv_expected(
            queues,
            sender,
            opaque_polls(tries),
            Err(DesyncErrorView::Disconnected),
            after,
        ),
        Waited::TimedOut => recv_expected(
            queues,
            sender,
            opaque_polls(tries),
            Err(DesyncErrorView::Timeout(None)),
            after,
        ),
        Waited::Unreadable => hit_unreadable(queues, sender, tries, after),
    }
}

/// The message that was found, if any.
pub open spec fn found_message<A>(r: Waited<A>) -> Option<OpaqueIpcMessage<A>> {
    match r {
        Waited::Found(msg) => Some(msg),
        _ => None,
    }
}

/// Waits for a message from `expected_sender`. Messages from others are kept in the buffer, which
/// is looked at first. The receiver is the one at position `at`.
pub fn do_replay_recv_for_entry<R, A, F: CallsAt<R, Attempt<A>>, S: Fn()>(
    buffer: &mut BufferedValues<OpaqueIpcMessage<A>>,
    expected_sender: &DetThreadId,
    receiver: &R,
    at: Ghost<int>,
    tap: &mut SetTap<F, R, Attempt<A>>,
    pause: &S,
) -> (r: Waited<A>)
    requires
        old(buffer).wf(),
        old(tap).calls().ready_at(*receiver),
        call_requires(*pause, ()),
    ensures
        final(buffer).wf(),
        final(tap).calls() == old(tap).calls(),
        old(tap).seen().is_prefix_of(final(tap).seen()),
        all_at(since(old(tap).seen(), final(tap).seen()), at@, *receiver),
        wait_kept(
            sender_in(),
            contents(*old(buffer)),
            since(old(tap).seen(), final(tap).seen()),
            at@,
            expected_sender@,
            found_message(r),
            contents(*final(buffer)),
        ),
        wait_relation(
            contents(*old(buffer)),
            expected_sender@,
            gives_one(old(tap).calls(), *receiver),
            r,
            contents(*final(buffer)),
        ),
{
    let ghost tries = gives_one::<R, Attempt<A>, F>(tap.calls(), *receiver);
    let ghost seen = tap.seen();
    let ghost mut delta: Seq<(int, R, Attempt<A>)> = Seq::empty();
    proof {
        assert(seen + delta =~= seen);
        assert(since(seen, seen) =~= delta);
    }
    let ghost queues = contents(*buffer);
    let ghost sender = expected_sender@;
    let ghost mut polls: Seq<Poll<OpaqueIpcMessage<A>>> = Seq::empty();
    match buffer.pop_message(expected_sender) {
        Some(entry) => {
            assert(expected_recv(
                queues,
                sender,
                polls,
                Ok::<OpaqueIpcMessage<A>, DesyncErrorView>(entry),
                contents(*buffer),
            ));
            proof {
                lemma_found_kept::<Seq<u32>, R, A>(sender_in(), queues, at@, sender);
            }
            return Waited::Found(entry);
        },
        None => {},
    }
    proof {
        lemma_kept_at_first::<Seq<u32>, R, A>(sender_in(), queues, at@);
    }
    let mut count: u64 = 0;
    while count < u64::MAX
        invariant
            buffer.wf(),
            queues == contents(*old(buffer)),
            queue_of(queues, sender).len() == 0,
            sender == expected_sender@,
            tries == gives_one::<R, Attempt<A>, F>(tap.calls(), *receiver),
            tap.calls() == old(tap).calls(),
            tap.calls().ready_at(*receiver),
            seen == old(tap).seen(),
            tap.seen() == seen + delta,
            all_at(delta, at@, *receiver),
            kept_all(sender_in(), queues, delta, at@, contents(*buffer)),
            queue_of(contents(*buffer), sender).len() == 0,
            call_requires(*pause, ()),
            polls.len() == count,
            contents(*buffer) == stash(queues, polls),
            forall|i: int|
                0 <= i < polls.len() ==> {
                    &&& is_other(#[trigger] polls[i], sender)
                    &&& opaque_polls(tries)(polls[i])
                },
        decreases u64::MAX - count,
    {
        let ghost before = polls;
        let ghost kept = contents(*buffer);
        let ghost earlier = delta;
        let got = rr_recv(receiver, at, tap, pause);
        proof {
            delta = since(seen, tap.seen());
            lemma_tried_since(seen, earlier, at@, *receiver, last_attempt(got), tap.seen());
            lemma_still_at(earlier, at@, *receiver, last_attempt(got), delta);
            if let Err(_) = got {
                lemma_kept_nothing(
                    sender_in(),
                    queues,
                    earlier,
                    at@,
                    *receiver,
                    kept,
                    last_attempt(got),
                    delta,
                );
                lemma_found_none(sender_in(), queues, delta, at@, sender, kept);
            }
        }
        match got {
            Ok(msg) => {
                match deserialize_id(&msg) {
                    Some(det_id) => {
                        proof {
                            polls = polls.push(Ok((det_id, msg)));
                            assert(polls.drop_last() =~= before);
                            assert(opaque_polls(tries)(Ok((det_id, msg))));
                        }
                        if det_id == *expected_sender {
                            proof {
                                lemma_found_new(
                                    sender_in(),
                                    queues,
                                    earlier,
                                    at@,
                                    *receiver,
                                    kept,
                                    msg,
                                    sender,
                                    delta,
                                );
                            }
                            assert(expected_recv(
                                queues,
                                sender,
                                polls,
                                Ok::<OpaqueIpcMessage<A>, DesyncErrorView>(msg),
                                contents(*buffer),
                            ));
                            return Waited::Found(msg);
                        }
                        proof {
                            lemma_kept_one_more(
                                sender_in(),
                                queues,
                                earlier,
                                at@,
                                *receiver,
                                kept,
                                msg,
                                det_id@,
                                delta,
                            );
                        }
                        buffer.push_message(det_id, msg);
                    },
                    None => {
                        proof {
                            lemma_kept_nothing(
                                sender_in(),
                                queues,
                                earlier,
                                at@,
                                *receiver,
                                kept,
                                last_attempt(got),
                                delta,
                            );
                            lemma_found_none(sender_in(), queues, delta, at@, sender, kept);
                        }
                        assert(hit_unreadable(queues, sender, tries, contents(*buffer)));
                        return Waited::Unreadable;
                    },
                }
            },
            Err(e) => {
                proof {
                    polls = polls.push(Err(e));
                    assert(polls.drop_last() =~= before);
                    assert(opaque_polls(tries)(Err(e)));
                }
                match e {
                    RecvErrorRR::Disconnected => {
                        assert(expected_recv(
                            queues,
                            sender,
                            polls,
                            Err::<OpaqueIpcMessage<A>, DesyncErrorView>(
                                DesyncErrorView::Disconnected,
                            ),
                            contents(*buffer),
                        ));
                        return Waited::Closed;
                    },
                    RecvErrorRR::Timeout => {
                        assert(expected_recv(
                            queues,
                            sender,
                            polls,
                            Err::<OpaqueIpcMessage<A>, DesyncErrorView>(
                                DesyncErrorView::Timeout(None),
                            ),
                            contents(*buffer),
                        ));
                        return Waited::TimedOut;
                    },
                }
            },
        }
        count += 1;
    }
    assert(is_other(polls[polls.len() - 1], sender));
    assert(expected_recv(
        queues,
        sender,
        polls,
        Err::<OpaqueIpcMessage<A>, DesyncErrorView>(DesyncErrorView::Timeout(None)),
        contents(*buffer),
    ));
    proof {
        assert(since(seen, tap.seen()) =~= delta);
        lemma_found_none(sender_in(), queues, delta, at@, sender, contents(*buffer));
    }
    Waited::TimedOut
}

} // verus!
