//! Sending with a keyed log.

use vstd::prelude::*;
use crate::desync::DesyncMode;
use crate::keyed::flow::{entry_view, mark_program_as_desynced, tag_of, tagged_entry, Message, Tag};
use crate::keyed::record_replay::{
    get_log_entry_with, log, lookup, DesyncError, DesyncErrorView, IndicesView, LogEntry,
    LogEntryView, RecordMetadata, Recorded, RecordedIndices, RecordedView,
};
use crate::keyed::thread::{
    get_det_id, get_event_id, get_forward_id, inc_event_id, ContextView, MaybeId, ThreadContext,
};
use crate::mode::RRMode;

verus! {

/// The kinds of channels that log their sends.
#[derive(Debug, Clone, Copy, PartialEq, Eq, Structural)]
pub enum KeyedSender {
    Crossbeam,
    Mpsc,
    Ipc,
}

impl KeyedSender {
    /// The event that records a send.
    pub open spec fn event(self) -> RecordedView {
        match self {
            KeyedSender::Crossbeam => RecordedView::Sender,
            KeyedSender::Mpsc => RecordedView::MpscSender,
            KeyedSender::Ipc => RecordedView::IpcSender,
        }
    }

    /// The event that records a send.
    pub fn as_recorded_event(&self) -> (event: Recorded)
        ensures
            event@ == (*self).event(),
    {
        match self {
            KeyedSender::Crossbeam => Recorded::Sender,
            KeyedSender::Mpsc => Recorded::MpscSender,
            KeyedSender::Ipc => Recorded::IpcSender,
        }
    }

    /// Checks that a logged event is a send on a channel of this kind.
    pub fn check_log_entry(&self, entry: Recorded) -> (r: Result<(), DesyncError>)
        ensures
            match r {
                Ok(_) => entry@ == (*self).event(),
                Err(e) => {
                    &&& entry@ != (*self).event()
                    &&& e@ == DesyncErrorView::EventMismatch(entry@, (*self).event())
                },
            },
    {
        match (self, &entry) {
            (KeyedSender::Crossbeam, Recorded::Sender) => Ok(()),
            (KeyedSender::Mpsc, Recorded::MpscSender) => Ok(()),
            (KeyedSender::Ipc, Recorded::IpcSender) => Ok(()),
            _ => Err(DesyncError::EventMismatch(entry, self.as_recorded_event())),
        }
    }
}

/// The outcome of an attempt to send.
pub enum KeyedSent<T, E> {
    /// The message was handed to the channel, which gave this result.
    Sent(Result<(), E>),
    /// The message was not sent.
    Desync(DesyncError, T),
}

/// How far a send came.
pub enum KeyedSendStep<T, E> {
    Done(Result<(), E>),
    /// The thread ran off the end of its log. It has to sleep until the program is
    /// desynchronized.
    Sleep(T),
    /// The replay cannot go on.
    Panic(DesyncError),
}

/// The message, tagged with the id `sender`, was handed to a channel that gave `gave`.
pub open spec fn passed<T, E>(
    sends: spec_fn(Message<T>, Result<(), E>) -> bool,
    id: MaybeId,
    sender: Option<Seq<u32>>,
    msg: T,
    gave: Result<(), E>,
) -> bool {
    id@ == sender && sends((id, msg), gave)
}

/// The message is sent, and the result of the channel handed on.
pub open spec fn sent_as<T, E>(
    sends: spec_fn(Message<T>, Result<(), E>) -> bool,
    sender: Option<Seq<u32>>,
    msg: T,
    r: KeyedSent<T, E>,
) -> bool {
    exists|id: MaybeId, gave: Result<(), E>| #[trigger]
        passed(sends, id, sender, msg, gave) && r == KeyedSent::<T, E>::Sent(gave)
}

/// The message comes back unsent.
pub open spec fn returned<T, E>(r: KeyedSent<T, E>, why: DesyncErrorView, msg: T) -> bool {
    match r {
        KeyedSent::Desync(e, back) => e@ == why && back == msg,
        _ => false,
    }
}

/// A send in each of the modes. Recorded and replayed messages carry the id that is forwarded, all
/// others that of the thread itself. A thread without an id sends without regard to the log.
pub open spec fn keyed_send<T, E>(
    kind: KeyedSender,
    mode: RRMode,
    tag: Tag,
    indices: IndicesView,
    sends: spec_fn(Message<T>, Result<(), E>) -> bool,
    thread: ContextView,
    msg: T,
    r: KeyedSent<T, E>,
    entry: Option<LogEntryView>,
    thread_after: ContextView,
) -> bool {
    if thread.desynced {
        &&& returned(r, DesyncErrorView::Desynchronized, msg)
        &&& entry is None
        &&& thread_after == thread
    } else {
        match mode {
            RRMode::Record => {
                &&& sent_as(sends, thread.forward_id(), msg, r)
                &&& entry == Some(tagged_entry(thread, kind.event(), tag))
                &&& thread_after == thread.next_event()
            },
            RRMode::Replay => {
                &&& entry is None
                &&& match replay_check(kind, tag, indices, thread) {
                    Some(e) => returned(r, e, msg) && thread_after == thread,
                    None => {
                        &&& sent_as(sends, thread.forward_id(), msg, r)
                        &&& thread_after == thread.next_event()
                    },
                }
            },
            RRMode::NoRR => {
                &&& sent_as(sends, thread.det_id, msg, r)
                &&& entry is None
                &&& thread_after == thread
            },
        }
    }
}

/// Why the thread may not send now, if so.
pub open spec fn replay_check(
    kind: KeyedSender,
    tag: Tag,
    indices: IndicesView,
    thread: ContextView,
) -> Option<DesyncErrorView> {
    match thread.det_id {
        None => None,
        Some(id) => match lookup(
            indices,
            id,
            thread.event_id,
            Some(tag.flavor),
            Some(tag.id),
        ) {
            Err(e) => Some(e),
            Ok(logged) => if logged.event == kind.event() {
                None
            } else {
                Some(DesyncErrorView::EventMismatch(logged.event, kind.event()))
            },
        },
    }
}

/// Sends a message as the mode demands. The second part of the result is to be appended to the
/// log.
pub fn record_replay_send<T, E, F: Fn(MaybeId, T) -> Result<(), E>>(
    thread: &mut ThreadContext,
    indices: &RecordedIndices,
    kind: KeyedSender,
    msg: T,
    metadata: &RecordMetadata,
    send: &F,
) -> (out: (KeyedSent<T, E>, Option<LogEntry>))
    requires
        indices.wf(),
        old(thread)@.event_id < u32::MAX,
        forall|id: MaybeId| #[trigger] call_requires(*send, (id, msg)),
    ensures
        keyed_send(
            kind,
            metadata.mode,
            tag_of(*metadata),
            indices@,
            |m: Message<T>, gave: Result<(), E>| call_ensures(*send, m, gave),
            old(thread)@,
            msg,
            out.0,
            entry_view(out.1),
            final(thread)@,
        ),
{
    let ghost sends = |m: Message<T>, gave: Result<(), E>| call_ensures(*send, m, gave);
    if thread.desynced {
        return (KeyedSent::Desync(DesyncError::Desynchronized, msg), None);
    }
    let forwarding_id = get_forward_id(thread);
    let ghost forwarded = forwarding_id;
    match metadata.mode {
        RRMode::Record => {
            let result = send(forwarding_id, msg);
            assert(passed(sends, forwarded, thread@.forward_id(), msg, result));
            let entry = log(
                thread,
                kind.as_recorded_event(),
                metadata.flavor,
                &metadata.message_type,
                &metadata.id,
            );
            (KeyedSent::Sent(result), Some(entry))
        },
        RRMode::Replay => {
            match get_det_id(thread).id {
                Some(det_id) => {
                    let event_id: u32 = get_event_id(thread);
                    match get_log_entry_with(
                        indices,
                        det_id,
                        event_id,
                        metadata.flavor,
                        &metadata.id,
                    ) {
                        Err(e) => {
                            return (KeyedSent::Desync(e, msg), None);
                        },
                        Ok(event) => match kind.check_log_entry(event) {
                            Err(e) => {
                                return (KeyedSent::Desync(e, msg), None);
                            },
                            Ok(_) => {},
                        },
                    }
                },
                None => {},
            }
            let result = send(forwarding_id, msg);
            assert(passed(sends, forwarded, thread@.forward_id(), msg, result));
            inc_event_id(thread);
            (KeyedSent::Sent(result), None)
        },
        RRMode::NoRR => {
            let id = get_det_id(thread);
            let ghost own = id;
            let result = send(id, msg);
            assert(passed(sends, own, thread@.det_id, msg, result));
            (KeyedSent::Sent(result), None)
        },
    }
}

/// What a sending thread does on the desynchronization `desync`: in the mode `Panic` it gives up.
/// In the mode `KeepGoing` it sends the message without regard to the log, and counts the event.
pub open spec fn keyed_desync_send<T, E>(
    desync: DesyncErrorView,
    sends: spec_fn(Message<T>, Result<(), E>) -> bool,
    thread: ContextView,
    msg: T,
    r: KeyedSendStep<T, E>,
    thread_after: ContextView,
) -> bool {
    match thread.desync_mode {
        DesyncMode::Panic => {
            &&& r matches KeyedSendStep::Panic(e)
            &&& e@ == desync
            &&& thread_after == thread
        },
        DesyncMode::KeepGoing => {
            &&& thread_after == thread.marked().next_event()
            &&& exists|id: MaybeId, gave: Result<(), E>| #[trigger]
                passed(sends, id, thread.forward_id(), msg, gave) && r == KeyedSendStep::<
                    T,
                    E,
                >::Done(gave)
        },
    }
}

/// What becomes of the outcome of a send.
pub open spec fn keyed_settled_send<T, E>(
    outcome: KeyedSent<T, E>,
    sends: spec_fn(Message<T>, Result<(), E>) -> bool,
    thread: ContextView,
    r: KeyedSendStep<T, E>,
    thread_after: ContextView,
) -> bool {
    match outcome {
        KeyedSent::Sent(gave) => r == KeyedSendStep::<T, E>::Done(gave) && thread_after == thread,
        KeyedSent::Desync(DesyncError::NoEntryInLog(_, _), msg) => {
            r == KeyedSendStep::<T, E>::Sleep(msg) && thread_after == thread
        },
        KeyedSent::Desync(e, msg) => keyed_desync_send(e@, sends, thread, msg, r, thread_after),
    }
}

/// A send, together with what the thread does on a desynchronization.
pub open spec fn keyed_send_step<T, E>(
    kind: KeyedSender,
    mode: RRMode,
    tag: Tag,
    indices: IndicesView,
    sends: spec_fn(Message<T>, Result<(), E>) -> bool,
    thread: ContextView,
    msg: T,
    r: KeyedSendStep<T, E>,
    entry: Option<LogEntryView>,
    thread_after: ContextView,
) -> bool {
    exists|outcome: KeyedSent<T, E>, mid: ContextView|
        {
            &&& keyed_send(kind, mode, tag, indices, sends, thread, msg, outcome, entry, mid)
            &&& #[trigger] keyed_settled_send(outcome, sends, mid, r, thread_after)
        }
}

/// Sends a message on a desynchronized thread, or gives up, as the thread's mode demands.
pub fn send_on_desync<T, E, F: Fn(MaybeId, T) -> Result<(), E>>(
    thread: &mut ThreadContext,
    desync: DesyncError,
    msg: T,
    send: &F,
) -> (r: KeyedSendStep<T, E>)
    requires
        old(thread)@.event_id < u32::MAX,
        forall|id: MaybeId| #[trigger] call_requires(*send, (id, msg)),
    ensures
        keyed_desync_send(
            desync@,
            |m: Message<T>, gave: Result<(), E>| call_ensures(*send, m, gave),
            old(thread)@,
            msg,
            r,
            final(thread)@,
        ),
{
    let ghost sends = |m: Message<T>, gave: Result<(), E>| call_ensures(*send, m, gave);
    match thread.desync_mode {
        DesyncMode::Panic => KeyedSendStep::Panic(desync),
        DesyncMode::KeepGoing => {
            mark_program_as_desynced(thread);
            let id = get_forward_id(thread);
            let ghost forwarded = id;
            let result = send(id, msg);
            assert(passed(sends, forwarded, old(thread)@.forward_id(), msg, result));
            inc_event_id(thread);
            KeyedSendStep::Done(result)
        },
    }
}

/// Sends a message as the mode demands, and handles a desynchronization. The second part of the
/// result is to be appended to the log.
pub fn send_message<T, E, F: Fn(MaybeId, T) -> Result<(), E>>(
    thread: &mut ThreadContext,
    indices: &RecordedIndices,
    kind: KeyedSender,
    msg: T,
    metadata: &RecordMetadata,
    send: &F,
) -> (out: (KeyedSendStep<T, E>, Option<LogEntry>))
    requires
        indices.wf(),
        old(thread)@.event_id < u32::MAX,
        forall|id: MaybeId| #[trigger] call_requires(*send, (id, msg)),
    ensures
        keyed_send_step(
            kind,
            metadata.mode,
            tag_of(*metadata),
            indices@,
            |m: Message<T>, gave: Result<(), E>| call_ensures(*send, m, gave),
            old(thread)@,
            msg,
            out.0,
            entry_view(out.1),
            final(thread)@,
        ),
{
    let ghost sends = |m: Message<T>, gave: Result<(), E>| call_ensures(*send, m, gave);
    let (outcome, entry) = record_replay_send(thread, indices, kind, msg, metadata, send);
    let ghost seen = outcome;
    let ghost mid = thread@;
    assert(keyed_send(
        kind,
        metadata.mode,
        tag_of(*metadata),
        indices@,
        sends,
        old(thread)@,
        msg,
        seen,
        entry_view(entry),
        mid,
    ));
    let r = match outcome {
        KeyedSent::Sent(v) => KeyedSendStep::Done(v),
        KeyedSent::Desync(DesyncError::NoEntryInLog(_, _), back) => KeyedSendStep::Sleep(back),
        KeyedSent::Desync(e, back) => send_on_desync(thread, e, back, send),
    };
    assert(keyed_settled_send(seen, sends, mid, r, thread@));
    (r, entry)
}

/// A send to a channel that gives only what another channel may give.
pub proof fn lemma_keyed_send_weaken<T, E>(
    kind: KeyedSender,
    mode: RRMode,
    tag: Tag,
    indices: IndicesView,
    narrow: spec_fn(Message<T>, Result<(), E>) -> bool,
    wide: spec_fn(Message<T>, Result<(), E>) -> bool,
    thread: ContextView,
    msg: T,
    r: KeyedSendStep<T, E>,
    entry: Option<LogEntryView>,
    thread_after: ContextView,
)
    requires
        keyed_send_step(kind, mode, tag, indices, narrow, thread, msg, r, entry, thread_after),
        forall|m: Message<T>, gave: Result<(), E>| #[trigger] narrow(m, gave) ==> wide(m, gave),
    ensures
        keyed_send_step(kind, mode, tag, indices, wide, thread, msg, r, entry, thread_after),
{
    let (outcome, mid) = choose|outcome: KeyedSent<T, E>, mid: ContextView|
        {
            &&& keyed_send(kind, mode, tag, indices, narrow, thread, msg, outcome, entry, mid)
            &&& #[trigger] keyed_settled_send(outcome, narrow, mid, r, thread_after)
        };
    assert forall|id: MaybeId, sender: Option<Seq<u32>>, m: T, gave: Result<(), E>| #[trigger]
        passed(narrow, id, sender, m, gave) implies passed(wide, id, sender, m, gave) by {
        assert(narrow((id, m), gave));
    }
    assert(keyed_settled_send(outcome, wide, mid, r, thread_after));
}

/// A send on a desynchronized thread to a channel that gives only what another channel may give.
pub proof fn lemma_keyed_desync_send_weaken<T, E>(
    desync: DesyncErrorView,
    narrow: spec_fn(Message<T>, Result<(), E>) -> bool,
    wide: spec_fn(Message<T>, Result<(), E>) -> bool,
    thread: ContextView,
    msg: T,
    r: KeyedSendStep<T, E>,
    thread_after: ContextView,
)
    requires
        keyed_desync_send(desync, narrow, thread, msg, r, thread_after),
        forall|m: Message<T>, gave: Result<(), E>| #[trigger] narrow(m, gave) ==> wide(m, gave),
    ensures
        keyed_desync_send(desync, wide, thread, msg, r, thread_after),
{
    assert forall|id: MaybeId, sender: Option<Seq<u32>>, m: T, gave: Result<(), E>| #[trigger]
        passed(narrow, id, sender, m, gave) implies passed(wide, id, sender, m, gave) by {
        assert(narrow((id, m), gave));
    }
}

} // verus!
