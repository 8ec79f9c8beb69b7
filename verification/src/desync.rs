//! What happens when a replay no longer follows its log.
//!
//! Entries of the log are tagged with the channel and the operation that they belong to. A
//! mismatch between an entry and the operation that meets it is a desynchronization.

use vstd::prelude::*;
use crate::detthread::{DetThreadId, ThreadState, ThreadView};
use crate::error::{DesyncError, DesyncErrorView};
use crate::source::{
    conserves, lemma_direct_accounted, lemma_idle_conserves, lemma_took_some_conserves,
    step_message, Source,
};
use crate::thread_map::{all_empty, contents, took_some, BufferedValues};

verus! {

/// A message travels with the id of the thread that sent it.
pub type DetMessage<T> = (DetThreadId, T);

/// What to do on a desynchronization.
#[derive(Debug, Clone, Copy, PartialEq, Eq, Structural)]
pub enum DesyncMode {
    /// Give up.
    Panic,
    /// Go on without the log.
    KeepGoing,
}

/// Whether the program is known to be desynchronized.
pub fn program_desyned(thread: &ThreadState) -> (desynced: bool)
    ensures
        desynced == thread@.desynced,
{
    thread.desynced
}

/// Notes that the program is desynchronized. Tells whether this is news: sleeping threads are
/// then to be woken up.
pub fn mark_program_as_desynced(thread: &mut ThreadState) -> (news: bool)
    ensures
        final(thread)@ == old(thread)@.marked(),
        news == !old(thread)@.desynced,
{
    if !thread.desynced {
        thread.desynced = true;
        true
    } else {
        false
    }
}

/// How far an operation came.
pub enum Step<V> {
    /// The operation is complete.
    Done(V),
    /// The thread ran off the end of its log: it is assumed to have come no further while
    /// recording. It has to sleep until the program is desynchronized.
    Sleep,
    /// The replay cannot go on.
    Panic(DesyncError),
}

/// The message without its sender.
pub open spec fn without_sender<T, E>(got: Result<DetMessage<T>, E>) -> Result<T, E> {
    match got {
        Ok((_, msg)) => Ok(msg),
        Err(e) => Err(e),
    }
}

/// Removes the sender from a message.
pub fn drop_sender<T, E>(got: Result<DetMessage<T>, E>) -> (r: Result<T, E>)
    ensures
        r == without_sender(got),
{
    match got {
        Ok((_, msg)) => Ok(msg),
        Err(e) => Err(e),
    }
}

/// What the thread does on the desynchronization `desync`: in the mode `Panic` it gives up. In
/// the mode `KeepGoing` it takes any message that was kept in the queues, or else one that
/// `direct` allows.
pub open spec fn desync_step<T, E>(
    desync: DesyncErrorView,
    direct: spec_fn(Result<DetMessage<T>, E>) -> bool,
    thread: ThreadView,
    queues: Map<Seq<u32>, Seq<T>>,
    r: Step<Result<T, E>>,
    thread_after: ThreadView,
    after: Map<Seq<u32>, Seq<T>>,
) -> bool {
    match thread.desync_mode {
        DesyncMode::Panic => {
            &&& r matches Step::Panic(e)
            &&& e@ == desync
            &&& thread_after == thread
            &&& after == queues
        },
        DesyncMode::KeepGoing => {
            &&& thread_after == thread.marked()
            &&& if all_empty(queues) {
                &&& after == queues
                &&& exists|got: Result<DetMessage<T>, E>| #[trigger]
                    direct(got) && r == Step::Done(without_sender(got))
            } else {
                &&& r matches Step::Done(Ok(msg))
                &&& took_some(queues, msg, after)
            }
        },
    }
}

/// Goes on after a desynchronization, as the thread's mode demands: gives up, or returns a
/// message without regard to the log. Any message that was kept in the buffer comes before those
/// still on the wire.
pub fn handle_desync<T, E, S: Source<DetThreadId, T, E>>(
    thread: &mut ThreadState,
    desync: DesyncError,
    source: &mut S,
    buffer: &mut BufferedValues<T>,
) -> (r: Step<Result<T, E>>)
    requires
        old(buffer).wf(),
        old(source).can_recv(),
    ensures
        final(buffer).wf(),
        final(source).end() == old(source).end(),
        final(source).can_recv(),
        desync_step(
            desync@,
            old(source).direct(),
            old(thread)@,
            contents(*old(buffer)),
            r,
            final(thread)@,
            contents(*final(buffer)),
        ),
        conserves(
            contents(*old(buffer)),
            old(source).came(),
            step_message(r),
            final(source).came(),
            contents(*final(buffer)),
        ),
{
    let ghost direct = source.direct();
    let ghost queues = contents(*buffer);
    let ghost came = source.came();
    match thread.desync_mode {
        DesyncMode::KeepGoing => {
            mark_program_as_desynced(thread);
            match buffer.pop_any_message() {
                Some(msg) => {
                    proof {
                        lemma_took_some_conserves::<DetThreadId, T>(
                            queues,
                            came,
                            msg,
                            contents(*buffer),
                        );
                    }
                    Step::Done(Ok(msg))
                },
                None => {
                    let got = source.recv();
                    assert(direct(got));
                    proof {
                        lemma_direct_accounted(queues, came, got);
                    }
                    Step::Done(drop_sender(got))
                },
            }
        },
        DesyncMode::Panic => {
            proof {
                lemma_idle_conserves::<DetThreadId, T>(queues, came);
            }
            Step::Panic(desync)
        },
    }
}

/// A desynchronization on a channel that gives only what another channel may give.
pub proof fn lemma_desync_weaken<T, E>(
    desync: DesyncErrorView,
    narrow: spec_fn(Result<DetMessage<T>, E>) -> bool,
    wide: spec_fn(Result<DetMessage<T>, E>) -> bool,
    thread: ThreadView,
    queues: Map<Seq<u32>, Seq<T>>,
    r: Step<Result<T, E>>,
    thread_after: ThreadView,
    after: Map<Seq<u32>, Seq<T>>,
)
    requires
        desync_step(desync, narrow, thread, queues, r, thread_after, after),
        forall|got: Result<DetMessage<T>, E>| #[trigger] narrow(got) ==> wide(got),
    ensures
        desync_step(desync, wide, thread, queues, r, thread_after, after),
{
}

} // verus!
