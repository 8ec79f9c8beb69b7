//! What all kinds of channels share when a message is sent.

use vstd::prelude::*;
use crate::desync::{mark_program_as_desynced, DesyncMode, DetMessage};
use crate::detthread::{get_det_id, DetThreadId, ThreadState, ThreadView};
use crate::error::{DesyncError, DesyncErrorView};
use crate::mode::RRMode;
use crate::recorder::{after_fetch, after_write, write_gave};
use crate::recordlog::{entry_of, MetadataView, RecordMetadata, TivoEvent, TivoEventView};
use crate::rr::{check_event_mismatch, event_mismatch, RecordEventChecker};

verus! {

/// The kinds of channels that log their sends.
#[derive(Debug, Clone, Copy, PartialEq, Eq, Structural)]
pub enum SenderKind {
    Crossbeam,
    Mpsc,
    Ipc,
}

impl SenderKind {
    /// The event that records a send.
    pub open spec fn event(self) -> TivoEventView {
        match self {
            SenderKind::Crossbeam => TivoEventView::CrossbeamSender,
            SenderKind::Mpsc => TivoEventView::MpscSender,
            SenderKind::Ipc => TivoEventView::IpcSender,
        }
    }

    /// The event that records a send.
    pub fn event_variant(&self) -> (event: TivoEvent)
        ensures
            event@ == (*self).event(),
    {
        match self {
            SenderKind::Crossbeam => TivoEvent::CrossbeamSender,
            SenderKind::Mpsc => TivoEvent::MpscSender,
            SenderKind::Ipc => TivoEvent::IpcSender,
        }
    }
}

impl RecordEventChecker for SenderKind {
    open spec fn accepts(&self, event: TivoEventView) -> bool {
        event == (*self).event()
    }

    open spec fn expected_event(&self) -> TivoEventView {
        (*self).event()
    }

    fn check_recorded_event(&self, re: &TivoEvent) -> (r: Result<(), TivoEvent>) {
        match (self, re) {
            (SenderKind::Crossbeam, TivoEvent::CrossbeamSender) => Ok(()),
            (SenderKind::Mpsc, TivoEvent::MpscSender) => Ok(()),
            (SenderKind::Ipc, TivoEvent::IpcSender) => Ok(()),
            _ => Err(self.event_variant()),
        }
    }
}

/// The outcome of an attempt to send.
pub enum Sent<T, E> {
    /// The message was handed to the channel, which gave this result.
    Sent(Result<(), E>),
    /// The message was not sent.
    Desync(DesyncError, T),
    /// The message was handed to the channel, but the log cannot be written.
    LogFailed(DesyncError),
}

/// How far a send came.
pub enum SendStep<T, E> {
    /// The message was handed to the channel, which gave this result.
    Done(Result<(), E>),
    /// The thread ran off the end of its log. It has to sleep until the program is
    /// desynchronized.
    Sleep(T),
    /// The run cannot go on.
    Panic(DesyncError),
}

/// The message, tagged with the id of the thread, was handed to a channel that gave `gave`.
pub open spec fn handed_over<T, E>(
    sends: spec_fn(DetMessage<T>, Result<(), E>) -> bool,
    id: DetThreadId,
    sender: Seq<u32>,
    msg: T,
    gave: Result<(), E>,
) -> bool {
    id@ == sender && sends((id, msg), gave)
}

/// A send in each of the modes: `sends` tells what the channel may give for a message.
pub open spec fn send_relation<T, E>(
    kind: SenderKind,
    mode: RRMode,
    metadata: MetadataView,
    sends: spec_fn(DetMessage<T>, Result<(), E>) -> bool,
    thread: ThreadView,
    msg: T,
    r: Sent<T, E>,
    thread_after: ThreadView,
) -> bool {
    if thread.desynced {
        &&& thread_after == thread
        &&& refused(r, DesyncErrorView::Desynchronized, msg)
    } else {
        match mode {
            RRMode::Record => {
                &&& thread_after == thread.with_log(
                    after_write(thread.log, entry_of(kind.event(), metadata), r is Sent),
                )
                &&& write_gave(thread.log, entry_of(kind.event(), metadata), r is Sent)
                &&& exists|id: DetThreadId, gave: Result<(), E>| #[trigger]
                    handed_over(sends, id, thread.det_id, msg, gave) && match r {
                        Sent::Sent(v) => v == gave,
                        Sent::Desync(_, _) => false,
                        Sent::LogFailed(e) => e@ == DesyncErrorView::CannotWriteEventToLog(
                            entry_of(kind.event(), metadata),
                        ),
                    }
            },
            RRMode::Replay => {
                let logged = thread.log.remaining[0];
                &&& thread_after == thread.with_log(after_fetch(thread.log))
                &&& if thread.log.remaining.len() == 0 {
                    refused(r, DesyncErrorView::NoEntryInLog, msg)
                } else {
                    match event_mismatch(
                        logged.event == kind.event(),
                        kind.event(),
                        logged,
                        metadata,
                    ) {
                        Some(e) => refused(r, e, msg),
                        None => passed_on(sends, thread.det_id, msg, r),
                    }
                }
            },
            RRMode::NoRR => {
                &&& thread_after == thread
                &&& passed_on(sends, thread.det_id, msg, r)
            },
        }
    }
}

/// The message comes back unsent.
pub open spec fn refused<T, E>(r: Sent<T, E>, why: DesyncErrorView, msg: T) -> bool {
    match r {
        Sent::Desync(e, back) => e@ == why && back == msg,
        _ => false,
    }
}

/// The message is sent, and the result of the channel handed on.
pub open spec fn passed_on<T, E>(
    sends: spec_fn(DetMessage<T>, Result<(), E>) -> bool,
    sender: Seq<u32>,
    msg: T,
    r: Sent<T, E>,
) -> bool {
    exists|id: DetThreadId, gave: Result<(), E>| #[trigger]
        handed_over(sends, id, sender, msg, gave) && r == Sent::<T, E>::Sent(gave)
}

/// Sends a message as the mode demands. While recording, the event is written to the log. While
/// replaying, it is checked against the log, and not sent on a mismatch. Once the program is
/// desynchronized, nothing is sent.
pub fn record_replay_send<T, E, F: Fn(DetThreadId, T) -> Result<(), E>>(
    thread: &mut ThreadState,
    kind: SenderKind,
    msg: T,
    mode: RRMode,
    metadata: &RecordMetadata,
    underlying_send: &F,
) -> (r: Sent<T, E>)
    requires
        old(thread)@.initialized,
        forall|id: DetThreadId| #[trigger] call_requires(*underlying_send, (id, msg)),
    ensures
        send_relation(
            kind,
            mode,
            metadata@,
            |m: DetMessage<T>, gave: Result<(), E>| call_ensures(*underlying_send, m, gave),
            old(thread)@,
            msg,
            r,
            final(thread)@,
        ),
{
    let ghost sends = |m: DetMessage<T>, gave: Result<(), E>|
        call_ensures(*underlying_send, m, gave);
    if thread.desynced {
        return Sent::Desync(DesyncError::Desynchronized, msg);
    }
    let det_id = get_det_id(thread);
    let ghost id = det_id;
    match mode {
        RRMode::Record => {
            let result = underlying_send(det_id, msg);
            assert(handed_over(sends, id, thread@.det_id, msg, result));
            match thread.recorder.write_event_to_record(kind.event_variant(), metadata) {
                Ok(_) => Sent::Sent(result),
                Err(e) => Sent::LogFailed(e),
            }
        },
        RRMode::Replay => {
            match thread.recorder.get_log_entry() {
                Err(e) => {
                    return Sent::Desync(e, msg);
                },
                Ok(recorded_entry) => {
                    match check_event_mismatch(&kind, &recorded_entry, metadata) {
                        Ok(_) => {},
                        Err(e) => {
                            return Sent::Desync(e, msg);
                        },
                    }
                },
            }
            let result = underlying_send(det_id, msg);
            assert(handed_over(sends, id, thread@.det_id, msg, result));
            Sent::Sent(result)
        },
        RRMode::NoRR => {
            let result = underlying_send(det_id, msg);
            assert(handed_over(sends, id, thread@.det_id, msg, result));
            Sent::Sent(result)
        },
    }
}

/// What a sending thread does on the desynchronization `desync`: in the mode `Panic` it gives up.
/// In the mode `KeepGoing` it sends the message without regard to the log.
pub open spec fn desync_send<T, E>(
    desync: DesyncErrorView,
    sends: spec_fn(DetMessage<T>, Result<(), E>) -> bool,
    thread: ThreadView,
    msg: T,
    r: SendStep<T, E>,
    thread_after: ThreadView,
) -> bool {
    match thread.desync_mode {
        DesyncMode::Panic => {
            &&& r matches SendStep::Panic(e)
            &&& e@ == desync
            &&& thread_after == thread
        },
        DesyncMode::KeepGoing => {
            &&& thread_after == thread.marked()
            &&& exists|id: DetThreadId, gave: Result<(), E>| #[trigger]
                handed_over(sends, id, thread.det_id, msg, gave) && r == SendStep::<T, E>::Done(
                    gave,
                )
        },
    }
}

/// What becomes of the outcome of a send.
pub open spec fn settled_send<T, E>(
    outcome: Sent<T, E>,
    sends: spec_fn(DetMessage<T>, Result<(), E>) -> bool,
    thread: ThreadView,
    r: SendStep<T, E>,
    thread_after: ThreadView,
) -> bool {
    match outcome {
        Sent::Sent(gave) => r == SendStep::<T, E>::Done(gave) && thread_after == thread,
        Sent::LogFailed(e) => r == SendStep::<T, E>::Panic(e) && thread_after == thread,
        Sent::Desync(DesyncError::NoEntryInLog, msg) => r == SendStep::<T, E>::Sleep(msg)
            && thread_after == thread,
        Sent::Desync(e, msg) => desync_send(e@, sends, thread, msg, r, thread_after),
    }
}

/// A send, together with what the thread does on a desynchronization.
pub open spec fn send_step<T, E>(
    kind: SenderKind,
    mode: RRMode,
    metadata: MetadataView,
    sends: spec_fn(DetMessage<T>, Result<(), E>) -> bool,
    thread: ThreadView,
    msg: T,
    r: SendStep<T, E>,
    thread_after: ThreadView,
) -> bool {
    exists|outcome: Sent<T, E>, mid: ThreadView|
        {
            &&& send_relation(kind, mode, metadata, sends, thread, msg, outcome, mid)
            &&& #[trigger] settled_send(outcome, sends, mid, r, thread_after)
        }
}

/// Sends a message on a desynchronized thread, or gives up, as the thread's mode demands.
pub fn send_on_desync<T, E, F: Fn(DetThreadId, T) -> Result<(), E>>(
    thread: &mut ThreadState,
    desync: DesyncError,
    msg: T,
    underlying_send: &F,
) -> (r: SendStep<T, E>)
    requires
        old(thread)@.initialized,
        forall|id: DetThreadId| #[trigger] call_requires(*underlying_send, (id, msg)),
    ensures
        desync_send(
            desync@,
            |m: DetMessage<T>, gave: Result<(), E>| call_ensures(*underlying_send, m, gave),
            old(thread)@,
            msg,
            r,
            final(thread)@,
        ),
{
    let ghost sends = |m: DetMessage<T>, gave: Result<(), E>|
        call_ensures(*underlying_send, m, gave);
    match thread.desync_mode {
        DesyncMode::Panic => SendStep::Panic(desync),
        DesyncMode::KeepGoing => {
            mark_program_as_desynced(thread);
            let det_id = get_det_id(thread);
            let ghost id = det_id;
            let result = underlying_send(det_id, msg);
            assert(handed_over(sends, id, old(thread)@.det_id, msg, result));
            SendStep::Done(result)
        },
    }
}

/// Sends a message as the mode demands, and handles a desynchronization.
pub fn send_message<T, E, F: Fn(DetThreadId, T) -> Result<(), E>>(
    thread: &mut ThreadState,
    kind: SenderKind,
    msg: T,
    mode: RRMode,
    metadata: &RecordMetadata,
    underlying_send: &F,
) -> (r: SendStep<T, E>)
    requires
        old(thread)@.initialized,
        forall|id: DetThreadId| #[trigger] call_requires(*underlying_send, (id, msg)),
    ensures
        send_step(
            kind,
            mode,
            metadata@,
            |m: DetMessage<T>, gave: Result<(), E>| call_ensures(*underlying_send, m, gave),
            old(thread)@,
            msg,
            r,
            final(thread)@,
        ),
{
    let ghost sends = |m: DetMessage<T>, gave: Result<(), E>|
        call_ensures(*underlying_send, m, gave);
    let outcome = record_replay_send(thread, kind, msg, mode, metadata, underlying_send);
    let ghost seen = outcome;
    let ghost mid = thread@;
    assert(send_relation(kind, mode, metadata@, sends, old(thread)@, msg, seen, mid));
    let r = match outcome {
        Sent::Sent(v) => SendStep::Done(v),
        Sent::LogFailed(e) => SendStep::Panic(e),
        Sent::Desync(DesyncError::NoEntryInLog, back) => SendStep::Sleep(back),
        Sent::Desync(e, back) => send_on_desync(thread, e, back, underlying_send),
    };
    assert(settled_send(seen, sends, mid, r, thread@));
    r
}

/// A send to a channel that gives only what another channel may give.
pub proof fn lemma_send_weaken<T, E>(
    kind: SenderKind,
    mode: RRMode,
    metadata: MetadataView,
    narrow: spec_fn(DetMessage<T>, Result<(), E>) -> bool,
    wide: spec_fn(DetMessage<T>, Result<(), E>) -> bool,
    thread: ThreadView,
    msg: T,
    r: SendStep<T, E>,
    thread_after: ThreadView,
)
    requires
        send_step(kind, mode, metadata, narrow, thread, msg, r, thread_after),
        forall|m: DetMessage<T>, gave: Result<(), E>| #[trigger] narrow(m, gave) ==> wide(m, gave),
    ensures
        send_step(kind, mode, metadata, wide, thread, msg, r, thread_after),
{
    let (outcome, mid) = choose|outcome: Sent<T, E>, mid: ThreadView|
        {
            &&& send_relation(kind, mode, metadata, narrow, thread, msg, outcome, mid)
            &&& #[trigger] settled_send(outcome, narrow, mid, r, thread_after)
        };
    assert forall|id: DetThreadId, sender: Seq<u32>, m: T, gave: Result<(), E>| #[trigger]
        handed_over(narrow, id, sender, m, gave) implies handed_over(
        wide,
        id,
        sender,
        m,
        gave,
    ) by {
        assert(narrow((id, m), gave));
    }
    assert(settled_send(outcome, wide, mid, r, thread_after));
}

/// A send on a desynchronized thread to a channel that gives only what another channel may give.
pub proof fn lemma_desync_send_weaken<T, E>(
    desync: DesyncErrorView,
    narrow: spec_fn(DetMessage<T>, Result<(), E>) -> bool,
    wide: spec_fn(DetMessage<T>, Result<(), E>) -> bool,
    thread: ThreadView,
    msg: T,
    r: SendStep<T, E>,
    thread_after: ThreadView,
)
    requires
        desync_send(desync, narrow, thread, msg, r, thread_after),
        forall|m: DetMessage<T>, gave: Result<(), E>| #[trigger] narrow(m, gave) ==> wide(m, gave),
    ensures
        desync_send(desync, wide, thread, msg, r, thread_after),
{
    assert forall|id: DetThreadId, sender: Seq<u32>, m: T, gave: Result<(), E>| #[trigger]
        handed_over(narrow, id, sender, m, gave) implies handed_over(
        wide,
        id,
        sender,
        m,
        gave,
    ) by {
        assert(narrow((id, m), gave));
    }
}

} // verus!
