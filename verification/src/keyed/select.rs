//! Selects over crossbeam channels with a keyed log.
//!
//! The completion of a selected operation is passed in as a function: it has to be made on the very
//! reference that was registered, which is a matter of addresses.

use vstd::prelude::*;
use std::mem::forget;
use ::crossbeam_channel::{Select as CbSelect, SelectedOperation as CbOperation};
use crate::desync::DesyncMode;
use crate::error::RecvErrorDef;
use crate::keyed::channel::{tag, tagged, Flavor, Receiver, Sender};
use crate::keyed::flow::{
    bare, entry_view, is_wait, tag_of, tagged_entry, wait_view, KeyedStep, Message, Tag,
};
use crate::keyed::record_replay::{
    fake_channel, get_det_id_desync, get_log_entry, get_log_entry_ret, log, lookup, result_view,
    ChannelIdView, DesyncError, DesyncErrorView, DetChannelId, FlavorMarker, IndicesView, LogEntry,
    LogEntryView, LoggedView, Recorded, RecordedIndices, RecordedView, SelectEvent, SelectEventView,
};
use crate::keyed::thread::{get_event_id, inc_event_id, ContextView, MaybeId, ThreadContext};
use crate::mode::RRMode;
use crate::rr::recv_expected;
use crate::source::{conserves, lemma_idle_conserves, lemma_wait_conserves, outcome_message};
use crate::wire::{
    crossbeam_ready, crossbeam_ready_gave, crossbeam_register, crossbeam_register_gave,
    crossbeam_register_send, crossbeam_register_send_gave, crossbeam_select, crossbeam_select_gave,
    crossbeam_selector, next_index, operations,
};

verus! {

/// A selected operation that is still to be completed. `O` is the operation of the real select,
/// which comes with its index.
pub enum SelectedOperation<O> {
    /// The logged select, and the channel that it was logged for.
    Replay(SelectEvent, FlavorMarker, DetChannelId),
    /// After a desynchronization.
    Desync(usize, O),
    /// The operation is to be logged when it completes.
    Record(usize, O),
    NoRR(usize, O),
}

/// What is reported as expected instead of an event that is no select.
pub open spec fn dummy_select() -> RecordedView {
    RecordedView::Select(
        SelectEventView::Success { sender_thread: None, selected_index: usize::MAX },
    )
}

/// What the log of a thread holds for its next event. Threads without an id have no log.
pub open spec fn next_logged(indices: IndicesView, thread: ContextView) -> Result<
    LoggedView,
    DesyncErrorView,
> {
    match thread.det_id {
        None => Err(DesyncErrorView::UnitializedDetThreadId),
        Some(id) => lookup(indices, id, thread.event_id, None, None),
    }
}

/// A select that follows the log.
pub open spec fn replayed_select<O>(
    found: Result<LoggedView, DesyncErrorView>,
    r: Result<SelectedOperation<O>, DesyncError>,
) -> bool {
    match found {
        Err(e) => r matches Err(error) && error@ == e,
        Ok(logged) => match logged.event {
            RecordedView::Select(event) => {
                &&& r matches Ok(SelectedOperation::Replay(ev, flavor, id))
                &&& ev@ == event
                &&& flavor == logged.flavor
                &&& id@ == logged.id
            },
            event => {
                &&& r matches Err(error)
                &&& error@ == DesyncErrorView::EventMismatch(event, dummy_select())
            },
        },
    }
}

/// A select in each of the modes: `selects` tells what the real select may give. The event is
/// counted when the operation completes.
pub open spec fn keyed_select<O>(
    mode: RRMode,
    indices: IndicesView,
    selects: spec_fn(usize, O) -> bool,
    thread: ContextView,
    r: Result<SelectedOperation<O>, DesyncError>,
) -> bool {
    match mode {
        RRMode::Record => exists|index: usize, op: O| #[trigger]
            selects(index, op) && r == Ok::<SelectedOperation<O>, DesyncError>(
                SelectedOperation::Record(index, op),
            ),
        RRMode::Replay => replayed_select(next_logged(indices, thread), r),
        RRMode::NoRR => exists|index: usize, op: O| #[trigger]
            selects(index, op) && r == Ok::<SelectedOperation<O>, DesyncError>(
                SelectedOperation::NoRR(index, op),
            ),
    }
}

/// What becomes of the outcome of a select. On a desynchronization in the mode `KeepGoing` the real
/// select decides. In the mode `Panic` it is given up, at the end of the log only once the real select
/// has returned.
pub open spec fn keyed_settled_select<O>(
    outcome: Result<SelectedOperation<O>, DesyncError>,
    selects: spec_fn(usize, O) -> bool,
    thread: ContextView,
    r: KeyedStep<SelectedOperation<O>>,
) -> bool {
    match outcome {
        Ok(op) => r == KeyedStep::Done(op),
        Err(e) => match thread.desync_mode {
            DesyncMode::Panic => {
                &&& r == KeyedStep::<SelectedOperation<O>>::Panic(e)
                &&& e is NoEntryInLog ==> exists|index: usize, op: O| #[trigger] selects(index, op)
            },
            DesyncMode::KeepGoing => {
                &&& r matches KeyedStep::Done(SelectedOperation::Desync(index, op))
                &&& selects(index, op)
            },
        },
    }
}

/// A select, together with what the thread does on a desynchronization.
pub open spec fn keyed_select_step<O>(
    mode: RRMode,
    indices: IndicesView,
    selects: spec_fn(usize, O) -> bool,
    thread: ContextView,
    r: KeyedStep<SelectedOperation<O>>,
) -> bool {
    exists|outcome: Result<SelectedOperation<O>, DesyncError>|
        {
            &&& keyed_select(mode, indices, selects, thread, outcome)
            &&& #[trigger] keyed_settled_select(outcome, selects, thread, r)
        }
}

/// How the readiness of a receiver is described in the log.
pub open spec fn ready_tag() -> Tag {
    Tag { flavor: FlavorMarker::NoFlavor, id: fake_channel(), message_type: "ready"@ }
}

/// A query for a ready receiver in each of the modes. While replaying, the event is counted also if
/// it is one of another operation.
pub open spec fn keyed_ready(
    mode: RRMode,
    indices: IndicesView,
    readies: spec_fn(usize) -> bool,
    thread: ContextView,
    r: Result<usize, DesyncErrorView>,
    entry: Option<LogEntryView>,
    thread_after: ContextView,
) -> bool {
    match mode {
        RRMode::Record => match r {
            Ok(select_index) => {
                &&& readies(select_index)
                &&& entry == Some(
                    tagged_entry(
                        thread,
                        RecordedView::SelectReady { select_index },
                        ready_tag(),
                    ),
                )
                &&& thread_after == thread.next_event()
            },
            Err(_) => false,
        },
        RRMode::Replay => {
            &&& entry is None
            &&& match next_logged(indices, thread) {
                Err(e) => r == Err::<usize, DesyncErrorView>(e) && thread_after == thread,
                Ok(logged) => {
                    &&& thread_after == thread.next_event()
                    &&& r == match logged.event {
                        RecordedView::SelectReady { select_index } => Ok(select_index),
                        event => Err(
                            DesyncErrorView::EventMismatch(
                                event,
                                RecordedView::SelectReady { select_index: 0 },
                            ),
                        ),
                    }
                },
            }
        },
        RRMode::NoRR => match r {
            Ok(select_index) => readies(select_index) && entry is None && thread_after == thread,
            Err(_) => false,
        },
    }
}

/// What becomes of the outcome of a query for a ready receiver.
pub open spec fn keyed_settled_ready(
    outcome: Result<usize, DesyncErrorView>,
    readies: spec_fn(usize) -> bool,
    thread: ContextView,
    r: KeyedStep<usize>,
) -> bool {
    match outcome {
        Ok(index) => r == KeyedStep::Done(index),
        Err(e) => match thread.desync_mode {
            DesyncMode::Panic => r matches KeyedStep::Panic(error) && error@ == e,
            DesyncMode::KeepGoing => r matches KeyedStep::Done(index) && readies(index),
        },
    }
}

/// A query for a ready receiver, together with what the thread does on a desynchronization.
pub open spec fn keyed_ready_step(
    mode: RRMode,
    indices: IndicesView,
    readies: spec_fn(usize) -> bool,
    thread: ContextView,
    r: KeyedStep<usize>,
    entry: Option<LogEntryView>,
    thread_after: ContextView,
) -> bool {
    exists|outcome: Result<usize, DesyncErrorView>|
        {
            &&& keyed_ready(mode, indices, readies, thread, outcome, entry, thread_after)
            &&& #[trigger] keyed_settled_ready(outcome, readies, thread, r)
        }
}

/// Whether a select comes to the real one: not while it follows the log, and not if it gives up on
/// a desynchronization, unless that is the end of the log.
pub open spec fn may_select(mode: RRMode, indices: IndicesView, thread: ContextView) -> bool {
    mode == RRMode::Replay ==> match next_logged(indices, thread) {
        Ok(logged) => thread.desync_mode == DesyncMode::KeepGoing && !(logged.event is Select),
        Err(e) => thread.desync_mode == DesyncMode::KeepGoing || e is NoEntryInLog,
    }
}

/// Whether a query for a ready receiver comes to the real select.
pub open spec fn may_ask(mode: RRMode, indices: IndicesView, thread: ContextView) -> bool {
    mode == RRMode::Replay ==> {
        &&& thread.desync_mode == DesyncMode::KeepGoing
        &&& match next_logged(indices, thread) {
            Ok(logged) => !(logged.event is SelectReady),
            Err(_) => true,
        }
    }
}

/// Selects as the mode demands. The real select can be made only once: the second part of the result
/// is left of it if it was not made.
pub fn record_replay_select<O, S: FnOnce() -> (usize, O)>(
    mode: RRMode,
    thread: &ThreadContext,
    indices: &RecordedIndices,
    real_select: S,
) -> (out: (Result<SelectedOperation<O>, DesyncError>, Option<S>))
    requires
        indices.wf(),
        mode != RRMode::Replay ==> call_requires(real_select, ()),
    ensures
        keyed_select(
            mode,
            indices@,
            |index: usize, op: O| call_ensures(real_select, (), (index, op)),
            thread@,
            out.0,
        ),
        out.1 == (if mode == RRMode::Replay {
            Some(real_select)
        } else {
            None
        }),
{
    let ghost selects = |index: usize, op: O| call_ensures(real_select, (), (index, op));
    match mode {
        RRMode::Record => {
            let (index, op) = real_select();
            assert(selects(index, op));
            (Ok(SelectedOperation::Record(index, op)), None)
        },
        RRMode::Replay => {
            let det_id = match get_det_id_desync(thread) {
                Ok(id) => id,
                Err(e) => {
                    return (Err(e), Some(real_select));
                },
            };
            let r = match get_log_entry_ret(indices, det_id, get_event_id(thread)) {
                Err(e) => Err(e),
                Ok((event, flavor, chan_id)) => match event {
                    Recorded::Select(select_entry) => Ok(
                        SelectedOperation::Replay(select_entry, flavor, chan_id),
                    ),
                    e => {
                        let dummy = SelectEvent::Success {
                            sender_thread: MaybeId::none(),
                            selected_index: usize::MAX,
                        };
                        Err(DesyncError::EventMismatch(e, Recorded::Select(dummy)))
                    },
                },
            };
            (r, Some(real_select))
        },
        RRMode::NoRR => {
            let (index, op) = real_select();
            assert(selects(index, op));
            (Ok(SelectedOperation::NoRR(index, op)), None)
        },
    }
}

/// Selects a receiver. At the end of its log the thread is assumed to have blocked for ever: the
/// real select has to return before this is a desynchronization.
pub fn select_with<O, S: FnOnce() -> (usize, O)>(
    mode: RRMode,
    thread: &ThreadContext,
    indices: &RecordedIndices,
    real_select: S,
) -> (r: KeyedStep<SelectedOperation<O>>)
    requires
        indices.wf(),
        may_select(mode, indices@, thread@) ==> call_requires(real_select, ()),
    ensures
        keyed_select_step(
            mode,
            indices@,
            |index: usize, op: O| call_ensures(real_select, (), (index, op)),
            thread@,
            r,
        ),
{
    let ghost selects = |index: usize, op: O| call_ensures(real_select, (), (index, op));
    let (outcome, left) = record_replay_select(mode, thread, indices, real_select);
    let ghost seen = outcome;
    let r = match outcome {
        Ok(op) => KeyedStep::Done(op),
        Err(error) => {
            let real_select = match left {
                Some(real_select) => real_select,
                None => vstd::pervasive::unreached(),
            };
            match thread.desync_mode {
                DesyncMode::Panic => {
                    if let DesyncError::NoEntryInLog(_, _) = &error {
                        let (index, op) = real_select();
                        assert(selects(index, op));
                        // An operation must not be dropped before it completes.
                        forget(Some((index, op)));
                    }
                    KeyedStep::Panic(error)
                },
                DesyncMode::KeepGoing => {
                    let (index, op) = real_select();
                    KeyedStep::Done(SelectedOperation::Desync(index, op))
                },
            }
        },
    };
    assert(keyed_select(mode, indices@, selects, thread@, seen));
    assert(keyed_settled_select(seen, selects, thread@, r));
    r
}

/// Finds a ready receiver as the mode demands. The second part of the result is to be appended
/// to the log. The real select can be asked only once: the third part is left of it if it was not
/// asked.
pub fn record_replay_ready<R: FnOnce() -> usize>(
    mode: RRMode,
    thread: &mut ThreadContext,
    indices: &RecordedIndices,
    real_ready: R,
) -> (out: (Result<usize, DesyncError>, Option<LogEntry>, Option<R>))
    requires
        indices.wf(),
        old(thread)@.event_id < u32::MAX,
        mode != RRMode::Replay ==> call_requires(real_ready, ()),
    ensures
        keyed_ready(
            mode,
            indices@,
            |index: usize| call_ensures(real_ready, (), index),
            old(thread)@,
            result_view(out.0),
            entry_view(out.1),
            final(thread)@,
        ),
        out.2 == (if mode == RRMode::Replay {
            Some(real_ready)
        } else {
            None
        }),
{
    match mode {
        RRMode::Record => {
            let select_index: usize = real_ready();
            let entry = log(
                thread,
                Recorded::SelectReady { select_index },
                FlavorMarker::NoFlavor,
                &"ready".to_string(),
                &DetChannelId::fake(),
            );
            (Ok(select_index), Some(entry), None)
        },
        RRMode::Replay => {
            let det_id = match get_det_id_desync(thread) {
                Ok(id) => id,
                Err(e) => {
                    return (Err(e), None, Some(real_ready));
                },
            };
            match get_log_entry(indices, det_id, get_event_id(thread)) {
                Err(e) => (Err(e), None, Some(real_ready)),
                Ok(event) => {
                    inc_event_id(thread);
                    match event {
                        Recorded::SelectReady { select_index } => (
                            Ok(select_index),
                            None,
                            Some(real_ready),
                        ),
                        event => {
                            let dummy = Recorded::SelectReady { select_index: 0 };
                            (Err(DesyncError::EventMismatch(event, dummy)), None, Some(real_ready))
                        },
                    }
                },
            }
        },
        RRMode::NoRR => (Ok(real_ready()), None, None),
    }
}

/// The index of a receiver that is ready. The second part of the result is to be appended to the
/// log.
pub fn ready_with<R: FnOnce() -> usize>(
    mode: RRMode,
    thread: &mut ThreadContext,
    indices: &RecordedIndices,
    real_ready: R,
) -> (out: (KeyedStep<usize>, Option<LogEntry>))
    requires
        indices.wf(),
        old(thread)@.event_id < u32::MAX,
        may_ask(mode, indices@, old(thread)@) ==> call_requires(real_ready, ()),
    ensures
        keyed_ready_step(
            mode,
            indices@,
            |index: usize| call_ensures(real_ready, (), index),
            old(thread)@,
            out.0,
            entry_view(out.1),
            final(thread)@,
        ),
{
    let ghost readies = |index: usize| call_ensures(real_ready, (), index);
    let (outcome, entry, left) = record_replay_ready(mode, thread, indices, real_ready);
    let ghost seen = result_view(outcome);
    assert(keyed_ready(
        mode,
        indices@,
        readies,
        old(thread)@,
        seen,
        entry_view(entry),
        thread@,
    ));
    let r = match outcome {
        Ok(index) => KeyedStep::Done(index),
        Err(error) => match thread.desync_mode {
            DesyncMode::Panic => KeyedStep::Panic(error),
            DesyncMode::KeepGoing => match left {
                Some(real_ready) => KeyedStep::Done(real_ready()),
                None => vstd::pervasive::unreached(),
            },
        },
    };
    assert(keyed_settled_ready(seen, readies, old(thread)@, r));
    (r, entry)
}

/// Registering a receive on `receiver` with `selector` gave the index and the select `r`.
pub open spec fn registered<'a, T>(
    selector: CbSelect<'a>,
    receiver: Flavor<T>,
    r: (usize, CbSelect<'a>),
) -> bool {
    match receiver {
        Flavor::After(end) => crossbeam_register_gave(selector, end, r),
        Flavor::Bounded(end) => crossbeam_register_gave(selector, end, r),
        Flavor::Never(end) => crossbeam_register_gave(selector, end, r),
        Flavor::Unbounded(end) => crossbeam_register_gave(selector, end, r),
    }
}

/// A select may give what a real select gives that may give no less.
proof fn lemma_select_weaken<O>(
    mode: RRMode,
    indices: IndicesView,
    selects: spec_fn(usize, O) -> bool,
    weaker: spec_fn(usize, O) -> bool,
    thread: ContextView,
    r: KeyedStep<SelectedOperation<O>>,
)
    requires
        keyed_select_step(mode, indices, selects, thread, r),
        forall|index: usize, op: O| #[trigger] selects(index, op) ==> weaker(index, op),
    ensures
        keyed_select_step(mode, indices, weaker, thread, r),
{
    let outcome = choose|outcome: Result<SelectedOperation<O>, DesyncError>|
        {
            &&& keyed_select(mode, indices, selects, thread, outcome)
            &&& #[trigger] keyed_settled_select(outcome, selects, thread, r)
        };
    assert(keyed_select(mode, indices, weaker, thread, outcome));
    assert(keyed_settled_select(outcome, weaker, thread, r));
}

/// A query for a ready receiver may give what a real one gives that may give no less.
proof fn lemma_ready_weaken(
    mode: RRMode,
    indices: IndicesView,
    readies: spec_fn(usize) -> bool,
    weaker: spec_fn(usize) -> bool,
    thread: ContextView,
    r: KeyedStep<usize>,
    entry: Option<LogEntryView>,
    thread_after: ContextView,
)
    requires
        keyed_ready_step(mode, indices, readies, thread, r, entry, thread_after),
        forall|index: usize| #[trigger] readies(index) ==> weaker(index),
    ensures
        keyed_ready_step(mode, indices, weaker, thread, r, entry, thread_after),
{
    let outcome = choose|outcome: Result<usize, DesyncErrorView>|
        {
            &&& keyed_ready(mode, indices, readies, thread, outcome, entry, thread_after)
            &&& #[trigger] keyed_settled_ready(outcome, readies, thread, r)
        };
    assert(keyed_ready(mode, indices, weaker, thread, outcome, entry, thread_after));
    assert(keyed_settled_ready(outcome, weaker, thread, r));
}

/// A select over several operations.
pub struct Select<'a> {
    pub selector: CbSelect<'a>,
    pub mode: RRMode,
}

impl<'a> Select<'a> {
    /// How many operations were added. They are numbered in this order.
    pub open(crate) spec fn count(&self) -> nat {
        next_index(self.selector)
    }

    /// The operations that were added are all registered.
    pub open(crate) spec fn wf(&self) -> bool {
        &&& forall|index: usize| #[trigger]
            operations(self.selector).contains(index) <==> index < self.count()
    }

    /// The real select gives `op`, the operation at `index`.
    pub open spec fn selects(&self, index: usize, op: CbOperation<'a>) -> bool {
        &&& crossbeam_select_gave(self.selector, (index, op))
        &&& index < self.count()
    }

    /// The real select finds the operation at `index` ready.
    pub open spec fn readies(&self, index: usize) -> bool {
        &&& crossbeam_ready_gave(self.selector, index)
        &&& index < self.count()
    }

    /// Creates an empty list of operations.
    pub fn new(thread: &ThreadContext) -> (select: Select<'a>)
        ensures
            select.wf(),
            select.mode == thread@.mode,
            select.count() == 0,
    {
        Select { selector: crossbeam_selector(), mode: thread.mode }
    }

    /// Adds a send operation. Returns its index.
    pub fn send<T>(&mut self, s: &'a Sender<T>) -> (index: usize)
        requires
            old(self).wf(),
            old(self).count() < usize::MAX,
        ensures
            final(self).wf(),
            index == old(self).count(),
            final(self).count() == old(self).count() + 1,
            final(self).mode == old(self).mode,
            crossbeam_register_send_gave(
                old(self).selector,
                s.sender,
                (index, final(self).selector),
            ),
    {
        let register = crossbeam_register_send::<Message<T>>;
        let (index, selector) = register(&self.selector, &s.sender);
        self.selector = selector;
        index
    }

    /// Adds a receive operation. Returns its index.
    pub fn recv<T>(&mut self, r: &'a Flavor<T>) -> (index: usize)
        requires
            old(self).wf(),
            old(self).count() < usize::MAX,
        ensures
            final(self).wf(),
            index == old(self).count(),
            final(self).count() == old(self).count() + 1,
            final(self).mode == old(self).mode,
            registered(old(self).selector, *r, (index, final(self).selector)),
    {
        let (index, selector) = match r {
            Flavor::After(end) => {
                let register = crossbeam_register::<T>;
                register(&self.selector, end)
            },
            Flavor::Bounded(end) | Flavor::Never(end) | Flavor::Unbounded(end) => {
                let register = crossbeam_register::<Message<T>>;
                register(&self.selector, end)
            },
        };
        self.selector = selector;
        index
    }

    /// Selects with crossbeam.
    fn real_select(&self) -> (op: (usize, CbOperation<'a>))
        requires
            self.wf(),
            self.count() > 0,
        ensures
            self.selects(op.0, op.1),
    {
        assert(operations(self.selector).contains(0));
        let select = crossbeam_select;
        select(&self.selector)
    }

    /// Asks crossbeam for a ready operation.
    fn real_ready(&self) -> (index: usize)
        requires
            self.wf(),
            self.count() > 0,
        ensures
            self.readies(index),
    {
        assert(operations(self.selector).contains(0));
        let ready = crossbeam_ready;
        ready(&self.selector)
    }

    /// Selects an operation, blocking until one is ready. It must not come to the real select
    /// without an operation.
    pub fn select(&self, thread: &ThreadContext, indices: &RecordedIndices) -> (r: KeyedStep<
        SelectedOperation<CbOperation<'a>>,
    >)
        requires
            self.wf(),
            indices.wf(),
            may_select(self.mode, indices@, thread@) ==> self.count() > 0,
        ensures
            keyed_select_step(
                self.mode,
                indices@,
                |index: usize, op: CbOperation<'a>| self.selects(index, op),
                thread@,
                r,
            ),
    {
        let ghost weaker = |index: usize, op: CbOperation<'a>| self.selects(index, op);
        let real_select = || -> (op: (usize, CbOperation<'a>))
            requires
                self.wf() && self.count() > 0,
            ensures
                self.selects(op.0, op.1),
            { self.real_select() };
        let ghost selects = |index: usize, op: CbOperation<'a>|
            call_ensures(real_select, (), (index, op));
        let r = select_with(self.mode, thread, indices, real_select);
        proof {
            lemma_select_weaken(self.mode, indices@, selects, weaker, thread@, r);
        }
        r
    }

    /// The index of an operation that is ready, blocking until there is one. The second part of the
    /// result is to be appended to the log. It must not come to the real select without an
    /// operation.
    pub fn ready(&self, thread: &mut ThreadContext, indices: &RecordedIndices) -> (out: (
        KeyedStep<usize>,
        Option<LogEntry>,
    ))
        requires
            self.wf(),
            indices.wf(),
            old(thread)@.event_id < u32::MAX,
            may_ask(self.mode, indices@, old(thread)@) ==> self.count() > 0,
        ensures
            keyed_ready_step(
                self.mode,
                indices@,
                |index: usize| self.readies(index),
                old(thread)@,
                out.0,
                entry_view(out.1),
                final(thread)@,
            ),
    {
        let ghost weaker = |index: usize| self.readies(index);
        let real_ready = || -> (index: usize)
            requires
                self.wf() && self.count() > 0,
            ensures
                self.readies(index),
            { self.real_ready() };
        let ghost readies = |index: usize| call_ensures(real_ready, (), index);
        let (r, entry) = ready_with(self.mode, thread, indices, real_ready);
        proof {
            lemma_ready_weaken(
                self.mode,
                indices@,
                readies,
                weaker,
                old(thread)@,
                r,
                entry_view(entry),
                thread@,
            );
        }
        (r, entry)
    }
}

/// What the completion of a real operation gives: some channels carry the sender of a message,
/// others do not.
pub enum SelectedMessage<T> {
    Plain(Result<T, RecvErrorDef>),
    Tagged(Result<Message<T>, RecvErrorDef>),
}

/// The message with its sender: that of the thread itself for channels that carry none.
pub open spec fn selected_message<T>(
    det_id: Option<Seq<u32>>,
    raw: SelectedMessage<T>,
    got: Result<Message<T>, RecvErrorDef>,
) -> bool {
    match raw {
        SelectedMessage::Plain(r) => tagged(det_id, r, got),
        SelectedMessage::Tagged(r) => got == r,
    }
}

/// The event that records the completion of an operation.
pub open spec fn select_event<T>(
    got: Result<Message<T>, RecvErrorDef>,
    selected_index: usize,
) -> SelectEventView {
    match got {
        Ok((sender, _)) => SelectEventView::Success { sender_thread: sender@, selected_index },
        Err(_) => SelectEventView::RecvError { selected_index },
    }
}

/// The completion of a real operation gave a message that is handed on.
pub open spec fn plain_completion<O, T>(
    op: O,
    completes: spec_fn(O, SelectedMessage<T>) -> bool,
    det_id: Option<Seq<u32>>,
    r: Result<Result<T, RecvErrorDef>, DesyncErrorView>,
) -> bool {
    exists|raw: SelectedMessage<T>, got: Result<Message<T>, RecvErrorDef>|
        {
            &&& completes(op, raw)
            &&& #[trigger] selected_message(det_id, raw, got)
            &&& r == Ok::<Result<T, RecvErrorDef>, DesyncErrorView>(bare(got))
        }
}

/// The completion of a real operation gave a message that is logged and handed on.
pub open spec fn logged_completion<O, T>(
    op: O,
    index: usize,
    completes: spec_fn(O, SelectedMessage<T>) -> bool,
    tag: Tag,
    thread: ContextView,
    r: Result<Result<T, RecvErrorDef>, DesyncErrorView>,
    entry: Option<LogEntryView>,
) -> bool {
    exists|raw: SelectedMessage<T>, got: Result<Message<T>, RecvErrorDef>|
        {
            &&& completes(op, raw)
            &&& #[trigger] selected_message(thread.det_id, raw, got)
            &&& r == Ok::<Result<T, RecvErrorDef>, DesyncErrorView>(bare(got))
            &&& entry == Some(
                tagged_entry(thread, RecordedView::Select(select_event(got, index)), tag),
            )
        }
}

/// The outcome of a wait for the message of a replayed operation.
pub open spec fn replayed_outcome<T>(
    found: Result<T, DesyncError>,
    thread: ContextView,
    r: Result<Result<T, RecvErrorDef>, DesyncErrorView>,
    thread_after: ContextView,
) -> bool {
    match found {
        Ok(msg) => {
            &&& r == Ok::<Result<T, RecvErrorDef>, DesyncErrorView>(Ok(msg))
            &&& thread_after == thread.next_event()
        },
        Err(e) => {
            r == Err::<Result<T, RecvErrorDef>, DesyncErrorView>(e@) && thread_after == thread
        },
    }
}

/// The message of a replayed operation is the next one from `sender`.
pub open spec fn replayed_success<T>(
    sender: Option<Seq<u32>>,
    thread: ContextView,
    before: Receiver<T>,
    r: Result<Result<T, RecvErrorDef>, DesyncErrorView>,
    thread_after: ContextView,
    after: Receiver<T>,
) -> bool {
    exists|found: Result<T, DesyncError>|
        {
            &&& is_wait(found)
            &&& recv_expected(
                before.queues(),
                sender,
                before.second_polls(thread),
                wait_view(found),
                after.queues(),
            )
            &&& #[trigger] replayed_outcome(found, thread, r, thread_after)
        }
}

/// The completion of a replayed operation on the receiver `before`. The channel has to be the one
/// that the log tells.
pub open spec fn replayed_completion<T>(
    event: SelectEventView,
    flavor: FlavorMarker,
    id: ChannelIdView,
    thread: ContextView,
    before: Receiver<T>,
    r: Result<Result<T, RecvErrorDef>, DesyncErrorView>,
    thread_after: ContextView,
    after: Receiver<T>,
) -> bool {
    let tag = tag_of(before.metadata);
    if flavor != tag.flavor {
        &&& r == Err::<Result<T, RecvErrorDef>, DesyncErrorView>(
            DesyncErrorView::FlavorMismatch(flavor, tag.flavor),
        )
        &&& thread_after == thread
        &&& after.queues() == before.queues()
    } else if id != tag.id {
        &&& r == Err::<Result<T, RecvErrorDef>, DesyncErrorView>(
            DesyncErrorView::ChannelMismatch(id, tag.id),
        )
        &&& thread_after == thread
        &&& after.queues() == before.queues()
    } else {
        match event {
            SelectEventView::Success { sender_thread, .. } => replayed_success(
                sender_thread,
                thread,
                before,
                r,
                thread_after,
                after,
            ),
            SelectEventView::RecvError { .. } => {
                &&& r == Ok::<Result<T, RecvErrorDef>, DesyncErrorView>(Err(RecvErrorDef {  }))
                &&& thread_after == thread.next_event()
                &&& after.queues() == before.queues()
            },
        }
    }
}

/// The completion of a selected operation on the receiver `before`: `completes` tells what the
/// completion of a real operation may give.
pub open spec fn keyed_completion<O, T>(
    op: SelectedOperation<O>,
    completes: spec_fn(O, SelectedMessage<T>) -> bool,
    thread: ContextView,
    before: Receiver<T>,
    r: Result<Result<T, RecvErrorDef>, DesyncErrorView>,
    entry: Option<LogEntryView>,
    thread_after: ContextView,
    after: Receiver<T>,
) -> bool {
    match op {
        SelectedOperation::Desync(_, o) => {
            &&& plain_completion(o, completes, thread.det_id, r)
            &&& entry is None
            &&& thread_after == thread
            &&& after.queues() == before.queues()
        },
        SelectedOperation::Record(index, o) => {
            &&& logged_completion(o, index, completes, tag_of(before.metadata), thread, r, entry)
            &&& thread_after == thread.next_event()
            &&& after.queues() == before.queues()
        },
        SelectedOperation::Replay(event, flavor, id) => {
            &&& entry is None
            &&& replayed_completion(
                event@,
                flavor,
                id@,
                thread,
                before,
                r,
                thread_after,
                after,
            )
        },
        SelectedOperation::NoRR(_, o) => {
            &&& plain_completion(o, completes, thread.det_id, r)
            &&& entry is None
            &&& thread_after == thread
            &&& after.queues() == before.queues()
        },
    }
}

/// The index of a selected operation.
pub open spec fn operation_index<O>(op: SelectedOperation<O>) -> usize {
    match op {
        SelectedOperation::Replay(event, _, _) => match event {
            SelectEvent::Success { selected_index, .. } => selected_index,
            SelectEvent::RecvError { selected_index } => selected_index,
        },
        SelectedOperation::Record(index, _) => index,
        SelectedOperation::NoRR(index, _) => index,
        SelectedOperation::Desync(index, _) => index,
    }
}

/// The message of a completed operation with its sender.
fn do_recv<T>(thread: &ThreadContext, raw: SelectedMessage<T>) -> (got: Result<
    Message<T>,
    RecvErrorDef,
>)
    ensures
        selected_message(thread@.det_id, raw, got),
{
    match raw {
        SelectedMessage::Plain(r) => tag(&thread.det_id, r),
        SelectedMessage::Tagged(r) => r,
    }
}

/// The message without its sender.
fn strip<T>(got: Result<Message<T>, RecvErrorDef>) -> (r: Result<T, RecvErrorDef>)
    ensures
        r == bare(got),
{
    match got {
        Ok((_, msg)) => Ok(msg),
        Err(e) => Err(e),
    }
}

/// What the completion takes off the channel. A real operation was selected with its message, so that
/// nothing else is received. While replaying, all that is received is handed out or kept.
pub open spec fn keyed_completion_takes<O, T, X>(
    op: SelectedOperation<O>,
    before: Receiver<T>,
    r: Result<Result<T, RecvErrorDef>, X>,
    after: Receiver<T>,
) -> bool {
    match op {
        SelectedOperation::Replay(..) => conserves(
            before.queues(),
            before.came(),
            outcome_message(r),
            after.came(),
            after.queues(),
        ),
        _ => after.came() == before.came(),
    }
}

impl<O> SelectedOperation<O> {
    /// The index of the selected receiver.
    pub fn index(&self) -> (index: usize)
        ensures
            index == operation_index(*self),
    {
        match self {
            SelectedOperation::Replay(event, _, _) => match event {
                SelectEvent::Success { selected_index, .. } => *selected_index,
                SelectEvent::RecvError { selected_index } => *selected_index,
            },
            SelectedOperation::Record(selected_index, _)
            | SelectedOperation::NoRR(selected_index, _)
            | SelectedOperation::Desync(selected_index, _) => *selected_index,
        }
    }

    /// Completes the operation on the receiver that it was selected for. Fails if the log tells of
    /// another receiver, or if its message is not there. The second part of the result is to be
    /// appended to the log.
    pub fn record_replay_recv<T, C: FnOnce(O) -> SelectedMessage<T>>(
        self,
        thread: &mut ThreadContext,
        r: &mut Receiver<T>,
        complete: C,
    ) -> (out: (Result<Result<T, RecvErrorDef>, DesyncError>, Option<LogEntry>))
        requires
            old(r).wf(),
            old(thread)@.event_id < u32::MAX,
            forall|op: O| #[trigger] call_requires(complete, (op,)),
        ensures
            final(r).wf(),
            final(r).same_channel(*old(r)),
            keyed_completion(
                self,
                |op: O, raw: SelectedMessage<T>| call_ensures(complete, (op,), raw),
                old(thread)@,
                *old(r),
                result_view(out.0),
                entry_view(out.1),
                final(thread)@,
                *final(r),
            ),
            keyed_completion_takes(self, *old(r), out.0, *final(r)),
    {
        proof {
            lemma_idle_conserves::<MaybeId, T>(r.queues(), r.came());
        }
        let ghost completes = |op: O, raw: SelectedMessage<T>| call_ensures(complete, (op,), raw);
        let ghost op = self;
        let selected_index = self.index();
        let out = match self {
            SelectedOperation::Desync(_, selected) => {
                let raw = complete(selected);
                let got = do_recv(thread, raw);
                (Ok(strip(got)), None)
            },
            SelectedOperation::Record(_, selected) => {
                let raw = complete(selected);
                let got = do_recv(thread, raw);
                let (msg, select_event) = match got {
                    Ok((sender_thread, msg)) => (
                        Ok(msg),
                        SelectEvent::Success { sender_thread, selected_index },
                    ),
                    Err(e) => (Err(e), SelectEvent::RecvError { selected_index }),
                };
                let entry = log(
                    thread,
                    Recorded::Select(select_event),
                    r.metadata.flavor,
                    &r.metadata.message_type,
                    &r.metadata.id,
                );
                (Ok(msg), Some(entry))
            },
            SelectedOperation::Replay(event, flavor, chan_id) => {
                if flavor != r.metadata.flavor {
                    (Err(DesyncError::FlavorMismatch(flavor, r.metadata.flavor)), None)
                } else if chan_id != r.metadata.id {
                    (Err(DesyncError::ChannelMismatch(chan_id, r.metadata.id.clone())), None)
                } else {
                    match event {
                        SelectEvent::Success { sender_thread, .. } => {
                            let found = r.replay_recv(thread, &sender_thread);
                            let ghost seen = found;
                            proof {
                                lemma_wait_conserves(
                                    old(r).queues(),
                                    sender_thread@,
                                    old(r).came(),
                                    wait_view(seen),
                                    r.came(),
                                    r.queues(),
                                );
                            }
                            let result = match found {
                                Ok(msg) => {
                                    inc_event_id(thread);
                                    Ok(Ok(msg))
                                },
                                Err(e) => Err(e),
                            };
                            assert(replayed_outcome(
                                seen,
                                old(thread)@,
                                result_view::<Result<T, RecvErrorDef>>(result),
                                thread@,
                            ));
                            (result, None)
                        },
                        SelectEvent::RecvError { .. } => {
                            inc_event_id(thread);
                            (Ok(Err(RecvErrorDef {  })), None)
                        },
                    }
                }
            },
            SelectedOperation::NoRR(_, selected) => {
                let raw = complete(selected);
                let got = do_recv(thread, raw);
                (Ok(strip(got)), None)
            },
        };
        assert(keyed_completion(
            op,
            completes,
            old(thread)@,
            *old(r),
            result_view(out.0),
            entry_view(out.1),
            thread@,
            *r,
        ));
        out
    }

    /// Completes the operation on the receiver that it was selected for. A desynchronization cannot
    /// be recovered from any more: the real select must not be left without its completion. The
    /// second part of the result is to be appended to the log.
    pub fn recv<T, C: FnOnce(O) -> SelectedMessage<T>>(
        self,
        thread: &mut ThreadContext,
        r: &mut Receiver<T>,
        complete: C,
    ) -> (out: (KeyedStep<Result<T, RecvErrorDef>>, Option<LogEntry>))
        requires
            old(r).wf(),
            old(thread)@.event_id < u32::MAX,
            forall|op: O| #[trigger] call_requires(complete, (op,)),
        ensures
            final(r).wf(),
            final(r).same_channel(*old(r)),
            !(out.0 is Sleep),
            keyed_completion(
                self,
                |op: O, raw: SelectedMessage<T>| call_ensures(complete, (op,), raw),
                old(thread)@,
                *old(r),
                match out.0 {
                    KeyedStep::Done(v) => Ok(v),
                    KeyedStep::Panic(e) => Err(e@),
                    KeyedStep::Sleep => arbitrary(),
                },
                entry_view(out.1),
                final(thread)@,
                *final(r),
            ),
            keyed_completion_takes(
                self,
                *old(r),
                match out.0 {
                    KeyedStep::Done(v) => Ok::<Result<T, RecvErrorDef>, ()>(v),
                    _ => Err(()),
                },
                *final(r),
            ),
    {
        let (result, entry) = self.record_replay_recv(thread, r, complete);
        match result {
            Ok(v) => (KeyedStep::Done(v), entry),
            Err(e) => (KeyedStep::Panic(e), entry),
        }
    }
}

} // verus!
