//! Record and replay for selects over crossbeam channels.
//!
//! The completion of a selected operation is passed in as a function: it has to be made on the very
//! reference that was registered, which is a matter of addresses.

use vstd::prelude::*;
use ::crossbeam_channel::{Select as CbSelect, SelectedOperation as CbOperation};
use crate::crossbeam::{kind_poll, polled_entry, tag, tagged, ChannelKind, Receiver, Sender};
use crate::desync::{
    drop_sender, mark_program_as_desynced, without_sender, DesyncMode, DetMessage, Step,
};
use crate::detthread::{DetThreadId, ThreadState, ThreadView};
use crate::error::{result_view, DesyncError, DesyncErrorView, RecvErrorDef};
use crate::mode::RRMode;
use crate::recorder::{after_fetch, after_write, write_gave};
use crate::recordlog::{
    entry_of, ChannelVariant, EntryView, MetadataView, RecordEntry, RecordMetadata, SelectEvent,
    SelectEventView, TivoEvent, TivoEventView,
};
use crate::rr::{recv_expected, ChannelIdView, DetChannelId, Poll};
use crate::source::{conserves, lemma_idle_conserves, lemma_waited, outcome_message};
use crate::thread_map::{all_empty, took_some};
use crate::wire::{
    crossbeam_ready, crossbeam_ready_gave, crossbeam_register, crossbeam_register_gave,
    crossbeam_register_send, crossbeam_register_send_gave, crossbeam_select, crossbeam_select_gave,
    crossbeam_selector, next_index, operations,
};

verus! {

/// A receiver that can be asked for messages without taking them.
pub trait BufferedReceiver {
    spec fn valid(&self) -> bool;

    /// The thread can use this receiver.
    spec fn usable_by(&self, thread: ThreadView) -> bool;

    /// Some message is kept.
    spec fn has_buffered(&self) -> bool;

    /// What a poll for a message from `sender` may give, and leave behind.
    spec fn poll_relation(
        &self,
        thread: ThreadView,
        sender: Seq<u32>,
        r: Result<bool, DesyncErrorView>,
        after: &Self,
    ) -> bool;

    /// Whether any message is kept.
    fn buffered_value(&self) -> (found: bool)
        requires
            self.valid(),
        ensures
            found == self.has_buffered(),
    ;

    /// Whether there is a message from `sender`, waiting for a while if there is none yet.
    fn poll(&mut self, thread: &ThreadState, sender: &DetThreadId) -> (r: Result<bool, DesyncError>)
        requires
            old(self).valid(),
            old(self).usable_by(thread@),
        ensures
            final(self).valid(),
            old(self).poll_relation(thread@, sender@, result_view(r), &*final(self)),
    ;
}

impl<T> BufferedReceiver for Receiver<T> {
    open spec fn valid(&self) -> bool {
        (*self).wf()
    }

    open spec fn usable_by(&self, thread: ThreadView) -> bool {
        (*self).usable(thread)
    }

    open spec fn has_buffered(&self) -> bool {
        !all_empty((*self).queues())
    }

    open spec fn poll_relation(
        &self,
        thread: ThreadView,
        sender: Seq<u32>,
        r: Result<bool, DesyncErrorView>,
        after: &Self,
    ) -> bool {
        &&& (*after).same_channel(*self)
        &&& polled_entry(
            (*self).queues(),
            sender,
            (*self).recv_wire(thread).polled,
            r,
            (*after).queues(),
        )
        &&& conserves((*self).queues(), (*self).came(), None, (*after).came(), (*after).queues())
    }

    fn buffered_value(&self) -> (found: bool) {
        self.buffer.has_any_message()
    }

    fn poll(&mut self, thread: &ThreadState, sender: &DetThreadId) -> (r: Result<
        bool,
        DesyncError,
    >) {
        self.poll_entry(thread, sender)
    }
}

/// The receivers of a select, known by the indices they were registered with.
pub struct Candidates {
    pub mode: RRMode,
    pub receivers: Vec<usize>,
}

/// A selected operation that is still to be completed. `O` is the operation of the real select,
/// which comes with the index of its receiver.
pub enum SelectedOperationImpl<O> {
    /// The logged select, and the channel that it was logged for.
    Replay(SelectEvent, ChannelVariant, DetChannelId),
    /// After a desynchronization: the receiver at this index keeps a message.
    DesyncBufferEntry(usize),
    /// The operation is to be logged when it completes.
    Record(usize, O),
    NoRR(usize, O),
    /// After a desynchronization: no receiver keeps a message.
    Desync(usize, O),
}

/// A selected operation that is still to be completed.
pub struct SelectedOperation<O> {
    pub inner: SelectedOperationImpl<O>,
}

/// How far a select came.
pub enum Selecting<O> {
    Selected(SelectedOperationImpl<O>),
    /// The replay does not follow its log.
    Desync(DesyncError),
    /// The receiver that the log points to is disconnected. Nothing can be selected any more.
    Fatal(DesyncError),
}

/// How the readiness of a receiver is described in the log.
pub open spec fn ready_metadata() -> MetadataView {
    MetadataView {
        message_type: "ready"@,
        channel_variant: ChannelVariant::NoChannel,
        id: DetChannelId::fake_view(),
    }
}

/// What is reported as expected instead of an event that is no select.
pub open spec fn dummy_select() -> TivoEventView {
    TivoEventView::CrossbeamSelect(
        SelectEventView::Success { sender_thread: Seq::<u32>::empty(), selected_index: usize::MAX },
    )
}

/// `r` reports the desynchronization `why`.
pub open spec fn select_desync<O>(r: Selecting<O>, why: DesyncErrorView) -> bool {
    match r {
        Selecting::Desync(e) => e@ == why,
        _ => false,
    }
}

/// `r` is the select that `entry` holds.
pub open spec fn select_replayed<O>(
    r: Selecting<O>,
    event: SelectEventView,
    entry: EntryView,
) -> bool {
    match r {
        Selecting::Selected(SelectedOperationImpl::Replay(e, variant, id)) => {
            &&& e@ == event
            &&& variant == entry.channel_variant
            &&& id@ == entry.chan_id
        },
        _ => false,
    }
}

/// What becomes of a logged select once its receiver was polled.
pub open spec fn select_polled<O>(
    polled: Result<bool, DesyncError>,
    event: SelectEventView,
    entry: EntryView,
    r: Selecting<O>,
) -> bool {
    match polled {
        Ok(true) => select_replayed(r, event, entry),
        Ok(false) => select_desync(r, DesyncErrorView::Timeout(None)),
        Err(e) => r == Selecting::<O>::Fatal(e),
    }
}

/// A select follows the logged `entry`. Where a message is to be selected, it has to be there:
/// `polls` tells what a poll of the receiver at an index may give.
pub open spec fn replayed_select<O>(
    receivers: Seq<usize>,
    polls: spec_fn(usize, Seq<u32>, Result<bool, DesyncError>) -> bool,
    entry: EntryView,
    r: Selecting<O>,
) -> bool {
    match entry.event {
        TivoEventView::CrossbeamSelect(event) => match event {
            SelectEventView::Success { sender_thread, selected_index } => if receivers.contains(
                selected_index,
            ) {
                exists|polled: Result<bool, DesyncError>|
                    {
                        &&& polls(selected_index, sender_thread, polled)
                        &&& #[trigger] select_polled(polled, event, entry, r)
                    }
            } else {
                select_desync(r, DesyncErrorView::MissingReceiver(selected_index as u64))
            },
            SelectEventView::RecvError { selected_index: _ } => select_replayed(r, event, entry),
        },
        event => select_desync(r, DesyncErrorView::EventMismatch(event, dummy_select())),
    }
}

/// A select in each of the modes: `selects` tells what the real select may give.
pub open spec fn select_relation<O>(
    mode: RRMode,
    receivers: Seq<usize>,
    selects: spec_fn(usize, O) -> bool,
    polls: spec_fn(usize, Seq<u32>, Result<bool, DesyncError>) -> bool,
    thread: ThreadView,
    r: Selecting<O>,
    thread_after: ThreadView,
) -> bool {
    if thread.desynced {
        select_desync(r, DesyncErrorView::Desynchronized) && thread_after == thread
    } else {
        match mode {
            RRMode::Record => {
                &&& thread_after == thread
                &&& exists|index: usize, op: O| #[trigger]
                    selects(index, op) && r == Selecting::Selected(
                        SelectedOperationImpl::Record(index, op),
                    )
            },
            RRMode::Replay => {
                &&& thread_after == thread.with_log(after_fetch(thread.log))
                &&& if thread.log.remaining.len() == 0 {
                    select_desync(r, DesyncErrorView::NoEntryInLog)
                } else {
                    replayed_select(receivers, polls, thread.log.remaining[0], r)
                }
            },
            RRMode::NoRR => {
                &&& thread_after == thread
                &&& exists|index: usize, op: O| #[trigger]
                    selects(index, op) && r == Selecting::Selected(
                        SelectedOperationImpl::NoRR(index, op),
                    )
            },
        }
    }
}

impl Candidates {
    /// An empty list of receivers.
    pub fn new(thread: &ThreadState) -> (list: Candidates)
        ensures
            list.mode == thread@.mode,
            list.receivers@ == Seq::<usize>::empty(),
    {
        Candidates { mode: thread.mode, receivers: Vec::new() }
    }

    /// Adds a receiver, which the real select has registered at `index`.
    pub fn recv(&mut self, index: usize) -> (added: usize)
        requires
            !old(self).receivers@.contains(index),
        ensures
            added == index,
            final(self).mode == old(self).mode,
            final(self).receivers@ == old(self).receivers@.push(index),
    {
        self.receivers.push(index);
        index
    }

    /// Whether a receiver is registered at `index`.
    fn registered(&self, index: usize) -> (found: bool)
        ensures
            found == self.receivers@.contains(index),
    {
        let mut i: usize = 0;
        while i < self.receivers.len()
            invariant
                i <= self.receivers@.len(),
                forall|j: int| 0 <= j < i ==> self.receivers@[j] != index,
            decreases self.receivers@.len() - i,
        {
            if self.receivers[i] == index {
                return true;
            }
            i += 1;
        }
        false
    }

    /// Selects what the logged entry tells.
    fn replay_select<O, P: Fn(usize, DetThreadId) -> Result<bool, DesyncError>>(
        &self,
        recorded_entry: RecordEntry,
        poll: &P,
    ) -> (r: Selecting<O>)
        requires
            forall|index: usize, sender: DetThreadId| #[trigger]
                call_requires(*poll, (index, sender)),
        ensures
            replayed_select(
                self.receivers@,
                |index: usize, sender: Seq<u32>, polled: Result<bool, DesyncError>|
                    poll_gave(*poll, index, sender, polled),
                recorded_entry@,
                r,
            ),
    {
        match recorded_entry.event {
            TivoEvent::CrossbeamSelect(event) => {
                if let SelectEvent::Success { sender_thread, selected_index } = event.clone() {
                    if self.registered(selected_index) {
                        let polled = poll(selected_index, sender_thread);
                        assert(poll_gave(*poll, selected_index, sender_thread@, polled));
                        let ghost seen = polled;
                        let r = match polled {
                            Ok(true) => Selecting::Selected(
                                SelectedOperationImpl::Replay(
                                    event,
                                    recorded_entry.channel_variant,
                                    recorded_entry.chan_id,
                                ),
                            ),
                            Ok(false) => Selecting::Desync(DesyncError::Timeout(None)),
                            Err(e) => Selecting::Fatal(e),
                        };
                        assert(select_polled(seen, event@, recorded_entry@, r));
                        return r;
                    } else {
                        return Selecting::Desync(
                            DesyncError::MissingReceiver(selected_index as u64),
                        );
                    }
                }
                Selecting::Selected(
                    SelectedOperationImpl::Replay(
                        event,
                        recorded_entry.channel_variant,
                        recorded_entry.chan_id,
                    ),
                )
            },
            e => {
                let dummy = SelectEvent::Success {
                    sender_thread: DetThreadId::new(),
                    selected_index: usize::MAX,
                };
                Selecting::Desync(DesyncError::EventMismatch(e, TivoEvent::CrossbeamSelect(dummy)))
            },
        }
    }

    /// Selects as the mode demands. While replaying, the log tells which receiver is selected, and
    /// whose message it has to deliver. The real select can be made only once: the second part of the
    /// result is left of it if it was not made.
    pub fn rr_select<
        O,
        S: FnOnce() -> (usize, O),
        P: Fn(usize, DetThreadId) -> Result<bool, DesyncError>,
    >(&self, thread: &mut ThreadState, real_select: S, poll: &P) -> (out: (
        Selecting<O>,
        Option<S>,
    ))
        requires
            self.mode == RRMode::Replay && !old(thread)@.desynced ==> old(thread)@.initialized,
            self.mode != RRMode::Replay && !old(thread)@.desynced ==> call_requires(
                real_select,
                (),
            ),
            forall|index: usize, sender: DetThreadId| #[trigger]
                call_requires(*poll, (index, sender)),
        ensures
            select_relation(
                self.mode,
                self.receivers@,
                |index: usize, op: O| call_ensures(real_select, (), (index, op)),
                |index: usize, sender: Seq<u32>, polled: Result<bool, DesyncError>|
                    poll_gave(*poll, index, sender, polled),
                old(thread)@,
                out.0,
                final(thread)@,
            ),
            out.1 == (if self.mode == RRMode::Replay || old(thread)@.desynced {
                Some(real_select)
            } else {
                None
            }),
    {
        let ghost selects = |index: usize, op: O| call_ensures(real_select, (), (index, op));
        if thread.desynced {
            return (Selecting::Desync(DesyncError::Desynchronized), Some(real_select));
        }
        match self.mode {
            RRMode::Record => {
                let (index, op) = real_select();
                assert(selects(index, op));
                (Selecting::Selected(SelectedOperationImpl::Record(index, op)), None)
            },
            RRMode::Replay => {
                let r = match thread.recorder.get_log_entry() {
                    Err(e) => Selecting::Desync(e),
                    Ok(recorded_entry) => self.replay_select(recorded_entry, poll),
                };
                (r, Some(real_select))
            },
            RRMode::NoRR => {
                let (index, op) = real_select();
                assert(selects(index, op));
                (Selecting::Selected(SelectedOperationImpl::NoRR(index, op)), None)
            },
        }
    }
}

/// What a select does on the desynchronization `desync`: in the mode `Panic` it gives up. In the
/// mode `KeepGoing` it selects a receiver that keeps a message, or else whatever the real select
/// gives.
pub open spec fn desync_select<O>(
    desync: DesyncErrorView,
    receivers: Seq<usize>,
    selects: spec_fn(usize, O) -> bool,
    buffered: spec_fn(usize, bool) -> bool,
    thread: ThreadView,
    r: Step<SelectedOperation<O>>,
    thread_after: ThreadView,
) -> bool {
    match thread.desync_mode {
        DesyncMode::Panic => {
            &&& r matches Step::Panic(e)
            &&& e@ == desync
            &&& thread_after == thread
        },
        DesyncMode::KeepGoing => {
            &&& thread_after == thread.marked()
            &&& r matches Step::Done(op)
            &&& match op.inner {
                SelectedOperationImpl::DesyncBufferEntry(index) => {
                    receivers.contains(index) && buffered(index, true)
                },
                SelectedOperationImpl::Desync(index, o) => {
                    &&& selects(index, o)
                    &&& forall|i: int|
                        0 <= i < receivers.len() ==> buffered(#[trigger] receivers[i], false)
                },
                _ => false,
            }
        },
    }
}

/// What becomes of the outcome of a select.
pub open spec fn settled_select<O>(
    outcome: Selecting<O>,
    receivers: Seq<usize>,
    selects: spec_fn(usize, O) -> bool,
    buffered: spec_fn(usize, bool) -> bool,
    thread: ThreadView,
    r: Step<SelectedOperation<O>>,
    thread_after: ThreadView,
) -> bool {
    match outcome {
        Selecting::Selected(inner) => {
            &&& r == Step::Done(SelectedOperation { inner })
            &&& thread_after == thread
        },
        Selecting::Fatal(e) => r == Step::<SelectedOperation<O>>::Panic(e) && thread_after
            == thread,
        Selecting::Desync(DesyncError::NoEntryInLog) => r is Sleep && thread_after == thread,
        Selecting::Desync(e) => desync_select(
            e@,
            receivers,
            selects,
            buffered,
            thread,
            r,
            thread_after,
        ),
    }
}

/// A select, together with what the thread does on a desynchronization.
pub open spec fn select_step<O>(
    mode: RRMode,
    receivers: Seq<usize>,
    selects: spec_fn(usize, O) -> bool,
    polls: spec_fn(usize, Seq<u32>, Result<bool, DesyncError>) -> bool,
    buffered: spec_fn(usize, bool) -> bool,
    thread: ThreadView,
    r: Step<SelectedOperation<O>>,
    thread_after: ThreadView,
) -> bool {
    exists|outcome: Selecting<O>, mid: ThreadView|
        {
            &&& select_relation(mode, receivers, selects, polls, thread, outcome, mid)
            &&& #[trigger] settled_select(
                outcome,
                receivers,
                selects,
                buffered,
                mid,
                r,
                thread_after,
            )
        }
}

/// Whether a select comes to the real one, or may do so: not while it follows the log, and not if it
/// gives up on a desynchronization.
pub open spec fn may_select(mode: RRMode, thread: ThreadView) -> bool {
    if thread.desynced {
        thread.desync_mode == DesyncMode::KeepGoing
    } else if mode != RRMode::Replay {
        true
    } else {
        &&& thread.desync_mode == DesyncMode::KeepGoing
        &&& thread.log.remaining.len() > 0
        &&& !(thread.log.remaining[0].event matches TivoEventView::CrossbeamSelect(
            SelectEventView::RecvError { .. },
        ))
    }
}

/// None of the receivers keeps a message, as far as `buffered_value` tells.
pub open spec fn none_buffered<B: Fn(usize) -> bool>(
    receivers: Seq<usize>,
    buffered_value: B,
) -> bool {
    forall|i: int|
        0 <= i < receivers.len() ==> call_ensures(
            buffered_value,
            (#[trigger] receivers[i],),
            false,
        )
}

/// A select comes to the real one: it follows no log, or it goes on without the log and no receiver
/// keeps a message. Where the log tells of a message, that was not there.
pub open spec fn comes_to_real<
    P: Fn(usize, DetThreadId) -> Result<bool, DesyncError>,
    B: Fn(usize) -> bool,
>(mode: RRMode, receivers: Seq<usize>, poll: P, buffered_value: B, thread: ThreadView) -> bool {
    &&& may_select(mode, thread)
    &&& thread.desynced || mode == RRMode::Replay ==> none_buffered(receivers, buffered_value)
    &&& !thread.desynced && mode == RRMode::Replay ==> match thread.log.remaining[0].event {
        TivoEventView::CrossbeamSelect(
            SelectEventView::Success { sender_thread, selected_index },
        ) => receivers.contains(selected_index) ==> poll_gave(
            poll,
            selected_index,
            sender_thread,
            Ok::<bool, DesyncError>(false),
        ),
        _ => true,
    }
}

/// Whether a query for a ready receiver comes to the real select.
pub open spec fn may_ask(mode: RRMode, thread: ThreadView) -> bool {
    if thread.desynced {
        thread.desync_mode == DesyncMode::KeepGoing
    } else if mode != RRMode::Replay {
        true
    } else {
        &&& thread.desync_mode == DesyncMode::KeepGoing
        &&& thread.log.remaining.len() > 0 ==> !(thread.log.remaining[0].event is CrossbeamSelectReady)
    }
}

/// A query for a ready receiver in each of the modes: `readies` tells what the real select may
/// give. While recording, the index is handed on also if the log cannot be written.
pub open spec fn ready_relation(
    mode: RRMode,
    readies: spec_fn(usize) -> bool,
    thread: ThreadView,
    r: Result<usize, DesyncErrorView>,
    thread_after: ThreadView,
) -> bool {
    if thread.desynced {
        r == Err::<usize, DesyncErrorView>(DesyncErrorView::Desynchronized) && thread_after
            == thread
    } else {
        match mode {
            RRMode::Record => match r {
                Ok(select_index) => {
                    let entry = entry_of(
                        TivoEventView::CrossbeamSelectReady { select_index },
                        ready_metadata(),
                    );
                    &&& readies(select_index)
                    &&& is_write_attempt(thread, entry, thread_after)
                },
                Err(_) => false,
            },
            RRMode::Replay => {
                &&& thread_after == thread.with_log(after_fetch(thread.log))
                &&& r == if thread.log.remaining.len() == 0 {
                    Err::<usize, DesyncErrorView>(DesyncErrorView::NoEntryInLog)
                } else {
                    match thread.log.remaining[0].event {
                        TivoEventView::CrossbeamSelectReady { select_index } => Ok(select_index),
                        event => Err(
                            DesyncErrorView::EventMismatch(
                                event,
                                TivoEventView::CrossbeamSelectReady { select_index: 0 },
                            ),
                        ),
                    }
                }
            },
            RRMode::NoRR => match r {
                Ok(select_index) => readies(select_index) && thread_after == thread,
                Err(_) => false,
            },
        }
    }
}

/// The thread tried to write `entry`, and its log holds the entry if that succeeded.
pub open spec fn is_write_attempt(
    thread: ThreadView,
    entry: EntryView,
    thread_after: ThreadView,
) -> bool {
    exists|ok: bool| #[trigger]
        write_gave(thread.log, entry, ok) && thread_after == thread.with_log(
            after_write(thread.log, entry, ok),
        )
}

/// What becomes of the outcome of a query for a ready receiver.
pub open spec fn settled_ready(
    outcome: Result<usize, DesyncErrorView>,
    readies: spec_fn(usize) -> bool,
    thread: ThreadView,
    r: Step<usize>,
    thread_after: ThreadView,
) -> bool {
    match outcome {
        Ok(index) => r == Step::Done(index) && thread_after == thread,
        Err(e) => match thread.desync_mode {
            DesyncMode::Panic => {
                &&& r matches Step::Panic(found)
                &&& found@ == e
                &&& thread_after == thread
            },
            DesyncMode::KeepGoing => {
                &&& r matches Step::Done(index)
                &&& readies(index)
                &&& thread_after == thread.marked()
            },
        },
    }
}

/// A query for a ready receiver, together with what the thread does on a desynchronization.
pub open spec fn ready_step(
    mode: RRMode,
    readies: spec_fn(usize) -> bool,
    thread: ThreadView,
    r: Step<usize>,
    thread_after: ThreadView,
) -> bool {
    exists|outcome: Result<usize, DesyncErrorView>, mid: ThreadView|
        {
            &&& ready_relation(mode, readies, thread, outcome, mid)
            &&& #[trigger] settled_ready(outcome, readies, mid, r, thread_after)
        }
}

impl Candidates {
    /// Selects on a desynchronized thread, or gives up, as the thread's mode demands.
    fn select_on_desync<O, S: FnOnce() -> (usize, O), B: Fn(usize) -> bool>(
        &self,
        thread: &mut ThreadState,
        desync: DesyncError,
        real_select: S,
        buffered_value: &B,
    ) -> (r: Step<SelectedOperation<O>>)
        requires
            old(thread)@.desync_mode == DesyncMode::KeepGoing && none_buffered(
                self.receivers@,
                *buffered_value,
            ) ==> call_requires(real_select, ()),
            forall|index: usize| #[trigger] call_requires(*buffered_value, (index,)),
        ensures
            desync_select(
                desync@,
                self.receivers@,
                |index: usize, op: O| call_ensures(real_select, (), (index, op)),
                |index: usize, found: bool| call_ensures(*buffered_value, (index,), found),
                old(thread)@,
                r,
                final(thread)@,
            ),
    {
        match thread.desync_mode {
            DesyncMode::Panic => Step::Panic(desync),
            DesyncMode::KeepGoing => {
                mark_program_as_desynced(thread);
                let mut i: usize = 0;
                while i < self.receivers.len()
                    invariant
                        i <= self.receivers@.len(),
                        thread@ == old(thread)@.marked(),
                        old(thread)@.desync_mode == DesyncMode::KeepGoing,
                        none_buffered(self.receivers@, *buffered_value) ==> call_requires(
                            real_select,
                            (),
                        ),
                        forall|index: usize| #[trigger] call_requires(*buffered_value, (index,)),
                        forall|j: int|
                            0 <= j < i ==> call_ensures(
                                *buffered_value,
                                (#[trigger] self.receivers@[j],),
                                false,
                            ),
                    decreases self.receivers@.len() - i,
                {
                    let index: usize = self.receivers[i];
                    if buffered_value(index) {
                        assert(self.receivers@.contains(index));
                        return Step::Done(
                            SelectedOperation {
                                inner: SelectedOperationImpl::DesyncBufferEntry(index),
                            },
                        );
                    }
                    i += 1;
                }
                assert(none_buffered(self.receivers@, *buffered_value));
                let (index, op) = real_select();
                Step::Done(SelectedOperation { inner: SelectedOperationImpl::Desync(index, op) })
            },
        }
    }

    /// Selects a receiver, blocking until one is ready.
    pub fn select<
        O,
        S: FnOnce() -> (usize, O),
        P: Fn(usize, DetThreadId) -> Result<bool, DesyncError>,
        B: Fn(usize) -> bool,
    >(&self, thread: &mut ThreadState, real_select: S, poll: &P, buffered_value: &B) -> (r: Step<
        SelectedOperation<O>,
    >)
        requires
            self.mode == RRMode::Replay && !old(thread)@.desynced ==> old(thread)@.initialized,
            comes_to_real(
                self.mode,
                self.receivers@,
                *poll,
                *buffered_value,
                old(thread)@,
            ) ==> call_requires(real_select, ()),
            forall|index: usize, sender: DetThreadId| #[trigger]
                call_requires(*poll, (index, sender)),
            forall|index: usize| #[trigger] call_requires(*buffered_value, (index,)),
        ensures
            select_step(
                self.mode,
                self.receivers@,
                |index: usize, op: O| call_ensures(real_select, (), (index, op)),
                |index: usize, sender: Seq<u32>, polled: Result<bool, DesyncError>|
                    poll_gave(*poll, index, sender, polled),
                |index: usize, found: bool| call_ensures(*buffered_value, (index,), found),
                old(thread)@,
                r,
                final(thread)@,
            ),
    {
        let ghost selects = |index: usize, op: O| call_ensures(real_select, (), (index, op));
        let ghost polls = |index: usize, sender: Seq<u32>, polled: Result<bool, DesyncError>|
            poll_gave(*poll, index, sender, polled);
        let ghost buffered = |index: usize, found: bool|
            call_ensures(*buffered_value, (index,), found);
        let (outcome, left) = self.rr_select(thread, real_select, poll);
        let ghost seen = outcome;
        let ghost mid = thread@;
        let r = match outcome {
            Selecting::Selected(inner) => Step::Done(SelectedOperation { inner }),
            Selecting::Fatal(e) => Step::Panic(e),
            Selecting::Desync(DesyncError::NoEntryInLog) => Step::Sleep,
            Selecting::Desync(e) => match left {
                Some(real_select) => self.select_on_desync(thread, e, real_select, buffered_value),
                None => vstd::pervasive::unreached(),
            },
        };
        assert(select_relation(
            self.mode,
            self.receivers@,
            selects,
            polls,
            old(thread)@,
            seen,
            mid,
        ));
        assert(settled_select(seen, self.receivers@, selects, buffered, mid, r, thread@));
        r
    }

    /// Completes a `select` whose thread was woken up by a desynchronization.
    pub fn select_after_wakeup<O, S: FnOnce() -> (usize, O), B: Fn(usize) -> bool>(
        &self,
        thread: &mut ThreadState,
        real_select: S,
        buffered_value: &B,
    ) -> (r: Step<SelectedOperation<O>>)
        requires
            old(thread)@.desync_mode == DesyncMode::KeepGoing && none_buffered(
                self.receivers@,
                *buffered_value,
            ) ==> call_requires(real_select, ()),
            forall|index: usize| #[trigger] call_requires(*buffered_value, (index,)),
        ensures
            desync_select(
                DesyncErrorView::DesynchronizedWakeup,
                self.receivers@,
                |index: usize, op: O| call_ensures(real_select, (), (index, op)),
                |index: usize, found: bool| call_ensures(*buffered_value, (index,), found),
                old(thread)@,
                r,
                final(thread)@,
            ),
    {
        self.select_on_desync(
            thread,
            DesyncError::DesynchronizedWakeup,
            real_select,
            buffered_value,
        )
    }

    /// Finds a ready receiver as the mode demands. The real select can be asked only once: the second
    /// part of the result is left of it if it was not asked.
    pub fn rr_ready<R: FnOnce() -> usize>(&self, thread: &mut ThreadState, real_ready: R) -> (out: (
        Result<usize, DesyncError>,
        Option<R>,
    ))
        requires
            self.mode != RRMode::NoRR && !old(thread)@.desynced ==> old(thread)@.initialized,
            self.mode != RRMode::Replay && !old(thread)@.desynced ==> call_requires(
                real_ready,
                (),
            ),
        ensures
            ready_relation(
                self.mode,
                |index: usize| call_ensures(real_ready, (), index),
                old(thread)@,
                result_view(out.0),
                final(thread)@,
            ),
            out.1 == (if self.mode == RRMode::Replay || old(thread)@.desynced {
                Some(real_ready)
            } else {
                None
            }),
    {
        if thread.desynced {
            return (Err(DesyncError::Desynchronized), Some(real_ready));
        }
        match self.mode {
            RRMode::Record => {
                let select_index: usize = real_ready();
                let metadata = RecordMetadata::new(
                    "ready".to_string(),
                    ChannelVariant::NoChannel,
                    DetChannelId::fake(),
                );
                let event = TivoEvent::CrossbeamSelectReady { select_index };
                let _ = thread.recorder.write_event_to_record(event, &metadata);
                (Ok(select_index), None)
            },
            RRMode::Replay => {
                let r = match thread.recorder.get_log_entry() {
                    Err(e) => Err(e),
                    Ok(recorded_entry) => match recorded_entry.event {
                        TivoEvent::CrossbeamSelectReady { select_index } => Ok(select_index),
                        event => {
                            let dummy = TivoEvent::CrossbeamSelectReady { select_index: 0 };
                            Err(DesyncError::EventMismatch(event, dummy))
                        },
                    },
                };
                (r, Some(real_ready))
            },
            RRMode::NoRR => (Ok(real_ready()), None),
        }
    }

    /// The index of a receiver that is ready, blocking until there is one.
    pub fn ready<R: FnOnce() -> usize>(&self, thread: &mut ThreadState, real_ready: R) -> (r: Step<
        usize,
    >)
        requires
            self.mode != RRMode::NoRR && !old(thread)@.desynced ==> old(thread)@.initialized,
            may_ask(self.mode, old(thread)@) ==> call_requires(real_ready, ()),
        ensures
            ready_step(
                self.mode,
                |index: usize| call_ensures(real_ready, (), index),
                old(thread)@,
                r,
                final(thread)@,
            ),
    {
        let ghost readies = |index: usize| call_ensures(real_ready, (), index);
        let (outcome, left) = self.rr_ready(thread, real_ready);
        let ghost seen = result_view(outcome);
        let ghost mid = thread@;
        let r = match outcome {
            Ok(index) => Step::Done(index),
            Err(error) => match thread.desync_mode {
                DesyncMode::Panic => Step::Panic(error),
                DesyncMode::KeepGoing => {
                    mark_program_as_desynced(thread);
                    match left {
                        Some(real_ready) => Step::Done(real_ready()),
                        None => vstd::pervasive::unreached(),
                    }
                },
            },
        };
        assert(ready_relation(self.mode, readies, old(thread)@, seen, mid));
        assert(settled_ready(seen, readies, mid, r, thread@));
        r
    }
}

/// Registering a receive on `kind` with `selector` gave the index and the select `r`.
pub open spec fn registered<'a, T>(
    selector: CbSelect<'a>,
    kind: ChannelKind<T>,
    r: (usize, CbSelect<'a>),
) -> bool {
    match kind {
        ChannelKind::After(receiver) => crossbeam_register_gave(selector, receiver, r),
        ChannelKind::Bounded(receiver) => crossbeam_register_gave(selector, receiver, r),
        ChannelKind::Never(receiver) => crossbeam_register_gave(selector, receiver, r),
        ChannelKind::Unbounded(receiver) => crossbeam_register_gave(selector, receiver, r),
    }
}

/// A select may give what a real select gives that may give no less.
proof fn lemma_select_weaken<O>(
    mode: RRMode,
    receivers: Seq<usize>,
    selects: spec_fn(usize, O) -> bool,
    weaker: spec_fn(usize, O) -> bool,
    polls: spec_fn(usize, Seq<u32>, Result<bool, DesyncError>) -> bool,
    buffered: spec_fn(usize, bool) -> bool,
    thread: ThreadView,
    r: Step<SelectedOperation<O>>,
    thread_after: ThreadView,
)
    requires
        select_step(mode, receivers, selects, polls, buffered, thread, r, thread_after),
        forall|index: usize, op: O| #[trigger] selects(index, op) ==> weaker(index, op),
    ensures
        select_step(mode, receivers, weaker, polls, buffered, thread, r, thread_after),
{
    let (outcome, mid) = choose|outcome: Selecting<O>, mid: ThreadView|
        {
            &&& select_relation(mode, receivers, selects, polls, thread, outcome, mid)
            &&& #[trigger] settled_select(
                outcome,
                receivers,
                selects,
                buffered,
                mid,
                r,
                thread_after,
            )
        };
    assert(select_relation(mode, receivers, weaker, polls, thread, outcome, mid));
    assert(settled_select(outcome, receivers, weaker, buffered, mid, r, thread_after));
}

/// A query for a ready receiver may give what a real one gives that may give no less.
proof fn lemma_ready_weaken(
    mode: RRMode,
    readies: spec_fn(usize) -> bool,
    weaker: spec_fn(usize) -> bool,
    thread: ThreadView,
    r: Step<usize>,
    thread_after: ThreadView,
)
    requires
        ready_step(mode, readies, thread, r, thread_after),
        forall|index: usize| #[trigger] readies(index) ==> weaker(index),
    ensures
        ready_step(mode, weaker, thread, r, thread_after),
{
    let (outcome, mid) = choose|outcome: Result<usize, DesyncErrorView>, mid: ThreadView|
        {
            &&& ready_relation(mode, readies, thread, outcome, mid)
            &&& #[trigger] settled_ready(outcome, readies, mid, r, thread_after)
        };
    assert(ready_relation(mode, weaker, thread, outcome, mid));
    assert(settled_ready(outcome, weaker, mid, r, thread_after));
}

/// A select over several operations.
pub struct Select<'a> {
    pub selector: CbSelect<'a>,
    pub candidates: Candidates,
}

impl<'a> Select<'a> {
    /// The operations that were added are all registered with the crossbeam select, and those of the
    /// receivers are among them.
    pub open(crate) spec fn wf(&self) -> bool {
        &&& forall|index: usize| #[trigger]
            operations(self.selector).contains(index) <==> index < self.count()
        &&& forall|i: int|
            0 <= i < self.candidates.receivers@.len() ==> #[trigger] self.candidates.receivers@[i]
                < self.count()
    }

    /// How many operations were added. They are numbered in this order.
    pub open(crate) spec fn count(&self) -> nat {
        next_index(self.selector)
    }

    /// The real select gives `op`, the operation at `index`.
    pub open spec fn selects(&self, index: usize, op: CbOperation<'a>) -> bool {
        &&& crossbeam_select_gave(self.selector, (index, op))
        &&& index < self.count()
    }

    /// The real select finds the operation at `index` ready.
    pub open spec fn readies(&self, index: usize) -> bool {
        &&& crossbeam_ready_gave(self.selector, index)
        &&& index < self.count()
    }

    /// Creates an empty list of operations.
    pub fn new(thread: &ThreadState) -> (select: Select<'a>)
        ensures
            select.wf(),
            select.candidates.mode == thread@.mode,
            select.candidates.receivers@ == Seq::<usize>::empty(),
            select.count() == 0,
    {
        Select { selector: crossbeam_selector(), candidates: Candidates::new(thread) }
    }

    /// Adds a send operation. Returns its index: operations are numbered as they are added.
    pub fn send<T>(&mut self, s: &'a Sender<T>) -> (index: usize)
        requires
            old(self).wf(),
            old(self).count() < usize::MAX,
        ensures
            final(self).wf(),
            index == old(self).count(),
            final(self).count() == old(self).count() + 1,
            final(self).candidates == old(self).candidates,
            crossbeam_register_send_gave(
                old(self).selector,
                s.sender,
                (index, final(self).selector),
            ),
    {
        let register = crossbeam_register_send::<DetMessage<T>>;
        let (index, selector) = register(&self.selector, &s.sender);
        self.selector = selector;
        index
    }

    /// Adds a receive operation. Returns its index: operations are numbered as they are added.
    pub fn recv<T>(&mut self, r: &'a ChannelKind<T>) -> (index: usize)
        requires
            old(self).wf(),
            old(self).count() < usize::MAX,
        ensures
            final(self).wf(),
            index == old(self).count(),
            final(self).count() == old(self).count() + 1,
            final(self).candidates.mode == old(self).candidates.mode,
            final(self).candidates.receivers@ == old(self).candidates.receivers@.push(index),
            registered(old(self).selector, *r, (index, final(self).selector)),
    {
        let (index, selector) = match r {
            ChannelKind::After(receiver) => {
                let register = crossbeam_register::<T>;
                register(&self.selector, receiver)
            },
            ChannelKind::Bounded(receiver)
            | ChannelKind::Never(receiver)
            | ChannelKind::Unbounded(receiver) => {
                let register = crossbeam_register::<DetMessage<T>>;
                register(&self.selector, receiver)
            },
        };
        self.selector = selector;
        self.candidates.recv(index)
    }

    /// Selects with crossbeam.
    fn real_select(&self) -> (op: (usize, CbOperation<'a>))
        requires
            self.wf(),
            self.count() > 0,
        ensures
            self.selects(op.0, op.1),
    {
        assert(operations(self.selector).contains(0));
        let select = crossbeam_select;
        select(&self.selector)
    }

    /// Asks crossbeam for a ready receiver.
    fn real_ready(&self) -> (index: usize)
        requires
            self.wf(),
            self.count() > 0,
        ensures
            self.readies(index),
    {
        assert(operations(self.selector).contains(0));
        let ready = crossbeam_ready;
        ready(&self.selector)
    }

    /// Whether a select of the thread comes to the real one, or may do so. There has to be an
    /// operation then.
    pub fn may_select(&self, thread: &ThreadState) -> (may: bool)
        ensures
            may == may_select(self.candidates.mode, thread@),
    {
        if thread.desynced || self.candidates.mode != RRMode::Replay {
            return !thread.desynced || thread.desync_mode == DesyncMode::KeepGoing;
        }
        if thread.desync_mode != DesyncMode::KeepGoing {
            return false;
        }
        match thread.recorder.peek_record_entry() {
            Some(entry) => !matches!(
                entry.event,
                TivoEvent::CrossbeamSelect(SelectEvent::RecvError { .. })
            ),
            None => false,
        }
    }

    /// Whether a query of the thread for a ready operation comes to the real select. There has to be
    /// an operation then.
    pub fn may_ask(&self, thread: &ThreadState) -> (may: bool)
        ensures
            may == may_ask(self.candidates.mode, thread@),
    {
        if thread.desynced || self.candidates.mode != RRMode::Replay {
            return !thread.desynced || thread.desync_mode == DesyncMode::KeepGoing;
        }
        if thread.desync_mode != DesyncMode::KeepGoing {
            return false;
        }
        match thread.recorder.peek_record_entry() {
            Some(entry) => !matches!(entry.event, TivoEvent::CrossbeamSelectReady { .. }),
            None => true,
        }
    }

    /// Selects an operation, blocking until one is ready. It must not come to the real select without
    /// an operation.
    pub fn select<
        P: Fn(usize, DetThreadId) -> Result<bool, DesyncError>,
        B: Fn(usize) -> bool,
    >(&self, thread: &mut ThreadState, poll: &P, buffered_value: &B) -> (r: Step<
        SelectedOperation<CbOperation<'a>>,
    >)
        requires
            self.wf(),
            self.candidates.mode == RRMode::Replay && !old(thread)@.desynced
                ==> old(thread)@.initialized,
            may_select(self.candidates.mode, old(thread)@) ==> self.count() > 0,
            forall|index: usize, sender: DetThreadId| #[trigger]
                call_requires(*poll, (index, sender)),
            forall|index: usize| #[trigger] call_requires(*buffered_value, (index,)),
        ensures
            select_step(
                self.candidates.mode,
                self.candidates.receivers@,
                |index: usize, op: CbOperation<'a>| self.selects(index, op),
                |index: usize, sender: Seq<u32>, polled: Result<bool, DesyncError>|
                    poll_gave(*poll, index, sender, polled),
                |index: usize, found: bool| call_ensures(*buffered_value, (index,), found),
                old(thread)@,
                r,
                final(thread)@,
            ),
    {
        let ghost weaker = |index: usize, op: CbOperation<'a>| self.selects(index, op);
        let ghost polls = |index: usize, sender: Seq<u32>, polled: Result<bool, DesyncError>|
            poll_gave(*poll, index, sender, polled);
        let ghost buffered = |index: usize, found: bool|
            call_ensures(*buffered_value, (index,), found);
        let real_select = || -> (op: (usize, CbOperation<'a>))
            requires
                self.wf() && self.count() > 0,
            ensures
                self.selects(op.0, op.1),
            { self.real_select() };
        let ghost selects = |index: usize, op: CbOperation<'a>|
            call_ensures(real_select, (), (index, op));
        let r = self.candidates.select(thread, real_select, poll, buffered_value);
        proof {
            lemma_select_weaken(
                self.candidates.mode,
                self.candidates.receivers@,
                selects,
                weaker,
                polls,
                buffered,
                old(thread)@,
                r,
                thread@,
            );
        }
        r
    }

    /// Completes a `select` whose thread was woken up by a desynchronization.
    pub fn select_after_wakeup<B: Fn(usize) -> bool>(
        &self,
        thread: &mut ThreadState,
        buffered_value: &B,
    ) -> (r: Step<SelectedOperation<CbOperation<'a>>>)
        requires
            self.wf(),
            old(thread)@.desync_mode == DesyncMode::KeepGoing ==> self.count() > 0,
            forall|index: usize| #[trigger] call_requires(*buffered_value, (index,)),
        ensures
            desync_select(
                DesyncErrorView::DesynchronizedWakeup,
                self.candidates.receivers@,
                |index: usize, op: CbOperation<'a>| self.selects(index, op),
                |index: usize, found: bool| call_ensures(*buffered_value, (index,), found),
                old(thread)@,
                r,
                final(thread)@,
            ),
    {
        let real_select = || -> (op: (usize, CbOperation<'a>))
            requires
                self.wf() && self.count() > 0,
            ensures
                self.selects(op.0, op.1),
            { self.real_select() };
        self.candidates.select_after_wakeup(thread, real_select, buffered_value)
    }

    /// The index of an operation that is ready, blocking until there is one. It must not come to the
    /// real select without an operation.
    pub fn ready(&self, thread: &mut ThreadState) -> (r: Step<usize>)
        requires
            self.wf(),
            self.candidates.mode != RRMode::NoRR && !old(thread)@.desynced
                ==> old(thread)@.initialized,
            may_ask(self.candidates.mode, old(thread)@) ==> self.count() > 0,
        ensures
            ready_step(
                self.candidates.mode,
                |index: usize| self.readies(index),
                old(thread)@,
                r,
                final(thread)@,
            ),
    {
        let ghost weaker = |index: usize| self.readies(index);
        let real_ready = || -> (index: usize)
            requires
                self.wf() && self.count() > 0,
            ensures
                self.readies(index),
            { self.real_ready() };
        let ghost readies = |index: usize| call_ensures(real_ready, (), index);
        let r = self.candidates.ready(thread, real_ready);
        proof {
            lemma_ready_weaken(
                self.candidates.mode,
                readies,
                weaker,
                old(thread)@,
                r,
                thread@,
            );
        }
        r
    }
}

/// What the completion of a real operation gives: some channels carry the sender of a message,
/// others do not.
pub enum SelectedMessage<T> {
    Plain(Result<T, RecvErrorDef>),
    Tagged(Result<DetMessage<T>, RecvErrorDef>),
}

/// The message with its sender: that of the thread itself for channels that carry none.
pub open spec fn selected_message<T>(
    det_id: Seq<u32>,
    raw: SelectedMessage<T>,
    got: Result<DetMessage<T>, RecvErrorDef>,
) -> bool {
    match raw {
        SelectedMessage::Plain(r) => tagged(det_id, r, got),
        SelectedMessage::Tagged(r) => got == r,
    }
}

/// The event that records the completion of an operation.
pub open spec fn select_event<T>(
    got: Result<DetMessage<T>, RecvErrorDef>,
    selected_index: usize,
) -> SelectEventView {
    match got {
        Ok((sender, _)) => SelectEventView::Success { sender_thread: sender@, selected_index },
        Err(_) => SelectEventView::RecvError { selected_index },
    }
}

/// The completion of a recorded operation. The message is handed on also if the log cannot be
/// written.
pub open spec fn recorded_select<T>(
    metadata: MetadataView,
    index: usize,
    got: Result<DetMessage<T>, RecvErrorDef>,
    thread: ThreadView,
    r: Result<Result<T, RecvErrorDef>, DesyncErrorView>,
    thread_after: ThreadView,
) -> bool {
    let event = TivoEventView::CrossbeamSelect(select_event(got, index));
    &&& r == Ok::<Result<T, RecvErrorDef>, DesyncErrorView>(without_sender(got))
    &&& is_write_attempt(thread, entry_of(event, metadata), thread_after)
}

/// The message of a replayed operation is the next one from `sender`.
pub open spec fn replayed_success<T>(
    sender: Seq<u32>,
    polled: spec_fn(Poll<T>) -> bool,
    queues: Map<Seq<u32>, Seq<T>>,
    r: Result<Result<T, RecvErrorDef>, DesyncErrorView>,
    after: Map<Seq<u32>, Seq<T>>,
) -> bool {
    exists|found: Result<T, DesyncErrorView>|
        {
            &&& #[trigger] recv_expected(queues, sender, polled, found, after)
            &&& r == match found {
                Ok(msg) => Ok(Ok::<T, RecvErrorDef>(msg)),
                Err(e) => Err(e),
            }
        }
}

/// The completion of a real operation gave a message that is handed on.
pub open spec fn plain_completion<O, T>(
    op: O,
    completes: spec_fn(O, SelectedMessage<T>) -> bool,
    det_id: Seq<u32>,
    r: Result<Result<T, RecvErrorDef>, DesyncErrorView>,
) -> bool {
    exists|raw: SelectedMessage<T>, got: Result<DetMessage<T>, RecvErrorDef>|
        {
            &&& completes(op, raw)
            &&& #[trigger] selected_message(det_id, raw, got)
            &&& r == Ok::<Result<T, RecvErrorDef>, DesyncErrorView>(without_sender(got))
        }
}

/// The completion of a real operation gave a message that is logged and handed on.
pub open spec fn logged_completion<O, T>(
    op: O,
    index: usize,
    completes: spec_fn(O, SelectedMessage<T>) -> bool,
    metadata: MetadataView,
    thread: ThreadView,
    r: Result<Result<T, RecvErrorDef>, DesyncErrorView>,
    thread_after: ThreadView,
) -> bool {
    exists|raw: SelectedMessage<T>, got: Result<DetMessage<T>, RecvErrorDef>|
        {
            &&& completes(op, raw)
            &&& #[trigger] selected_message(thread.det_id, raw, got)
            &&& recorded_select(metadata, index, got, thread, r, thread_after)
        }
}

/// The completion of a replayed operation on the receiver `before`. The channel has to be the one
/// that the log tells.
pub open spec fn replayed_completion<T>(
    event: SelectEventView,
    variant: ChannelVariant,
    id: ChannelIdView,
    thread: ThreadView,
    before: Receiver<T>,
    r: Result<Result<T, RecvErrorDef>, DesyncErrorView>,
    after: Receiver<T>,
) -> bool {
    let metadata = before.metadata@;
    if variant != metadata.channel_variant {
        &&& r == Err::<Result<T, RecvErrorDef>, DesyncErrorView>(
            DesyncErrorView::ChannelVariantMismatch(variant, metadata.channel_variant),
        )
        &&& after.queues() == before.queues()
    } else if id != metadata.id {
        &&& r == Err::<Result<T, RecvErrorDef>, DesyncErrorView>(
            DesyncErrorView::ChannelMismatch(id, metadata.id),
        )
        &&& after.queues() == before.queues()
    } else {
        match event {
            SelectEventView::Success { sender_thread, .. } => replayed_success(
                sender_thread,
                before.recv_wire(thread).polled,
                before.queues(),
                r,
                after.queues(),
            ),
            SelectEventView::RecvError { .. } => {
                &&& r == Ok::<Result<T, RecvErrorDef>, DesyncErrorView>(Err(RecvErrorDef {  }))
                &&& after.queues() == before.queues()
            },
        }
    }
}

/// The completion of a selected operation on the receiver `before`: `completes` tells what the
/// completion of a real operation may give.
pub open spec fn completion<O, T>(
    inner: SelectedOperationImpl<O>,
    completes: spec_fn(O, SelectedMessage<T>) -> bool,
    thread: ThreadView,
    before: Receiver<T>,
    r: Result<Result<T, RecvErrorDef>, DesyncErrorView>,
    thread_after: ThreadView,
    after: Receiver<T>,
) -> bool {
    match inner {
        SelectedOperationImpl::DesyncBufferEntry(_) => {
            &&& thread_after == thread
            &&& r matches Ok(Ok(msg))
            &&& took_some(before.queues(), msg, after.queues())
        },
        SelectedOperationImpl::Desync(_, op) => {
            &&& thread_after == thread
            &&& after.queues() == before.queues()
            &&& plain_completion(op, completes, thread.det_id, r)
        },
        SelectedOperationImpl::Record(index, op) => {
            &&& after.queues() == before.queues()
            &&& logged_completion(
                op,
                index,
                completes,
                before.metadata@,
                thread,
                r,
                thread_after,
            )
        },
        SelectedOperationImpl::Replay(event, variant, id) => {
            &&& thread_after == thread
            &&& replayed_completion(event@, variant, id@, thread, before, r, after)
        },
        SelectedOperationImpl::NoRR(_, op) => {
            &&& thread_after == thread
            &&& after.queues() == before.queues()
            &&& plain_completion(op, completes, thread.det_id, r)
        },
    }
}

/// What the completion takes off the channel. A real operation was selected with its message, so that
/// nothing else is received. While replaying, all that is received is handed out or kept.
pub open spec fn completion_takes<O, T, X>(
    inner: SelectedOperationImpl<O>,
    before: Receiver<T>,
    r: Result<Result<T, RecvErrorDef>, X>,
    after: Receiver<T>,
) -> bool {
    match inner {
        SelectedOperationImpl::Replay(..) => conserves(
            before.queues(),
            before.came(),
            outcome_message(r),
            after.came(),
            after.queues(),
        ),
        _ => after.came() == before.came(),
    }
}

/// The index of a selected operation.
pub open spec fn operation_index<O>(inner: SelectedOperationImpl<O>) -> usize {
    match inner {
        SelectedOperationImpl::DesyncBufferEntry(index) => index,
        SelectedOperationImpl::Replay(event, _, _) => match event {
            SelectEvent::Success { selected_index, .. } => selected_index,
            SelectEvent::RecvError { selected_index } => selected_index,
        },
        SelectedOperationImpl::Record(index, _) => index,
        SelectedOperationImpl::NoRR(index, _) => index,
        SelectedOperationImpl::Desync(index, _) => index,
    }
}

/// Writes the completion of an operation to the log and hands the message on.
pub fn record_selected<T>(
    thread: &mut ThreadState,
    metadata: &RecordMetadata,
    selected_index: usize,
    got: Result<DetMessage<T>, RecvErrorDef>,
) -> (r: Result<T, RecvErrorDef>)
    ensures
        recorded_select(
            metadata@,
            selected_index,
            got,
            old(thread)@,
            Ok::<Result<T, RecvErrorDef>, DesyncErrorView>(r),
            final(thread)@,
        ),
{
    let (msg, select_event) = match got {
        Ok((sender_thread, msg)) => (
            Ok(msg),
            SelectEvent::Success { sender_thread, selected_index },
        ),
        Err(e) => (Err(e), SelectEvent::RecvError { selected_index }),
    };
    let event = TivoEvent::CrossbeamSelect(select_event);
    let _ = thread.recorder.write_event_to_record(event, metadata);
    msg
}

/// The message of a completed operation with its sender.
pub fn do_recv<T>(thread: &ThreadState, raw: SelectedMessage<T>) -> (got: Result<
    DetMessage<T>,
    RecvErrorDef,
>)
    ensures
        selected_message(thread@.det_id, raw, got),
{
    match raw {
        SelectedMessage::Plain(r) => tag(&thread.det_id, r),
        SelectedMessage::Tagged(r) => r,
    }
}

impl<O> SelectedOperation<O> {
    pub fn new(inner: SelectedOperationImpl<O>) -> (op: SelectedOperation<O>)
        ensures
            op.inner == inner,
    {
        SelectedOperation { inner }
    }

    /// The index of the selected receiver.
    pub fn index(&self) -> (index: usize)
        ensures
            index == operation_index(self.inner),
    {
        match &self.inner {
            SelectedOperationImpl::DesyncBufferEntry(selected_index) => *selected_index,
            SelectedOperationImpl::Replay(event, _, _) => match event {
                SelectEvent::Success { selected_index, .. } => *selected_index,
                SelectEvent::RecvError { selected_index } => *selected_index,
            },
            SelectedOperationImpl::Record(selected_index, _)
            | SelectedOperationImpl::NoRR(selected_index, _)
            | SelectedOperationImpl::Desync(selected_index, _) => *selected_index,
        }
    }

    /// Completes the operation on the receiver that it was selected for. Fails if the log tells of
    /// another receiver, or if its message is not there.
    pub fn rr_select_recv<T, C: FnOnce(O) -> SelectedMessage<T>>(
        self,
        thread: &mut ThreadState,
        r: &mut Receiver<T>,
        complete: C,
    ) -> (result: Result<Result<T, RecvErrorDef>, DesyncError>)
        requires
            old(r).wf(),
            old(r).usable(old(thread)@),
            self.inner is DesyncBufferEntry ==> !all_empty(old(r).queues()),
            forall|op: O| #[trigger] call_requires(complete, (op,)),
        ensures
            final(r).wf(),
            final(r).same_channel(*old(r)),
            completion(
                self.inner,
                |op: O, raw: SelectedMessage<T>| call_ensures(complete, (op,), raw),
                old(thread)@,
                *old(r),
                result_view(result),
                final(thread)@,
                *final(r),
            ),
            completion_takes(self.inner, *old(r), result, *final(r)),
    {
        proof {
            lemma_idle_conserves::<DetThreadId, T>(r.queues(), r.came());
        }
        let ghost completes = |op: O, raw: SelectedMessage<T>| call_ensures(complete, (op,), raw);
        let selected_index = self.index();
        let ghost inner = self.inner;
        let result = match self.inner {
            SelectedOperationImpl::DesyncBufferEntry(_) => {
                match r.get_buffered_value() {
                    Some(msg) => Ok(Ok(msg)),
                    None => vstd::pervasive::unreached(),
                }
            },
            SelectedOperationImpl::Desync(_, selected) => {
                let raw = complete(selected);
                let got = do_recv(thread, raw);
                Ok(drop_sender(got))
            },
            SelectedOperationImpl::Record(_, selected) => {
                let raw = complete(selected);
                let got = do_recv(thread, raw);
                Ok(record_selected(thread, &r.metadata, selected_index, got))
            },
            SelectedOperationImpl::Replay(event, flavor, chan_id) => {
                if flavor != r.metadata.channel_variant {
                    Err(DesyncError::ChannelVariantMismatch(flavor, r.metadata.channel_variant))
                } else if chan_id != r.metadata.id {
                    Err(DesyncError::ChannelMismatch(chan_id, r.metadata.id.clone()))
                } else {
                    match event {
                        SelectEvent::Success { sender_thread, .. } => {
                            let found = r.replay_recv(thread, &sender_thread);
                            proof {
                                lemma_waited(
                                    old(r).queues(),
                                    sender_thread@,
                                    kind_poll(old(r).receiver, old(thread)@.det_id),
                                    old(r).came(),
                                    result_view(found),
                                    r.came(),
                                    r.queues(),
                                );
                            }
                            assert(recv_expected(
                                old(r).queues(),
                                sender_thread@,
                                old(r).recv_wire(old(thread)@).polled,
                                result_view(found),
                                r.queues(),
                            ));
                            match found {
                                Ok(msg) => Ok(Ok(msg)),
                                Err(e) => Err(e),
                            }
                        },
                        SelectEvent::RecvError { .. } => Ok(Err(RecvErrorDef {  })),
                    }
                }
            },
            SelectedOperationImpl::NoRR(_, selected) => {
                let raw = complete(selected);
                let got = do_recv(thread, raw);
                Ok(drop_sender(got))
            },
        };
        assert(completion(
            inner,
            completes,
            old(thread)@,
            *old(r),
            result_view(result),
            thread@,
            *r,
        ));
        result
    }

    /// Completes the operation on the receiver that it was selected for. A desynchronization cannot
    /// be recovered from any more: the real select must not be left without its completion.
    pub fn recv<T, C: FnOnce(O) -> SelectedMessage<T>>(
        self,
        thread: &mut ThreadState,
        r: &mut Receiver<T>,
        complete: C,
    ) -> (step: Step<Result<T, RecvErrorDef>>)
        requires
            old(r).wf(),
            old(r).usable(old(thread)@),
            self.inner is DesyncBufferEntry ==> !all_empty(old(r).queues()),
            forall|op: O| #[trigger] call_requires(complete, (op,)),
        ensures
            final(r).wf(),
            final(r).same_channel(*old(r)),
            !(step is Sleep),
            completion(
                self.inner,
                |op: O, raw: SelectedMessage<T>| call_ensures(complete, (op,), raw),
                old(thread)@,
                *old(r),
                match step {
                    Step::Done(v) => Ok(v),
                    Step::Panic(e) => Err(e@),
                    Step::Sleep => arbitrary(),
                },
                final(thread)@,
                *final(r),
            ),
            completion_takes(
                self.inner,
                *old(r),
                match step {
                    Step::Done(v) => Ok::<Result<T, RecvErrorDef>, ()>(v),
                    _ => Err(()),
                },
                *final(r),
            ),
    {
        match self.rr_select_recv(thread, r, complete) {
            Ok(v) => Step::Done(v),
            Err(e) => Step::Panic(e),
        }
    }
}

/// A poll of the receiver at `index` for a message from `sender` gave `polled`.
pub open spec fn poll_gave<P: Fn(usize, DetThreadId) -> Result<bool, DesyncError>>(
    poll: P,
    index: usize,
    sender: Seq<u32>,
    polled: Result<bool, DesyncError>,
) -> bool {
    exists|id: DetThreadId| id@ == sender && #[trigger] call_ensures(poll, (index, id), polled)
}

} // verus!
