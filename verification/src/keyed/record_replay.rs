//! The keyed log, and what all kinds of channels share when they are recorded and replayed.

use vstd::prelude::*;
use crate::error::{
    MpscRecvErrorDef, MpscRecvTimeoutErrorDef, MpscTryRecvErrorDef, RecvErrorDef, RecvErrorRR,
    RecvTimeoutErrorDef, TryRecvErrorDef,
};
use crate::keyed::thread::{
    get_and_inc_channel_id, get_det_id, get_event_id, inc_event_id, ContextView, DetThreadId,
    MaybeId, ThreadContext,
};
use crate::mode::RRMode;

verus! {

/// Record of a completed select over several channels.
#[derive(Debug, PartialEq, Eq)]
pub enum SelectEvent {
    Success { sender_thread: MaybeId, selected_index: usize },
    RecvError { selected_index: usize },
}

/// Mathematical value of a `SelectEvent`.
pub enum SelectEventView {
    Success { sender_thread: Option<Seq<u32>>, selected_index: usize },
    RecvError { selected_index: usize },
}

impl View for SelectEvent {
    type V = SelectEventView;

    open spec fn view(&self) -> SelectEventView {
        match *self {
            SelectEvent::Success { sender_thread, selected_index } => SelectEventView::Success {
                sender_thread: sender_thread@,
                selected_index,
            },
            SelectEvent::RecvError { selected_index } => SelectEventView::RecvError {
                selected_index,
            },
        }
    }
}

impl Clone for SelectEvent {
    fn clone(&self) -> (event: SelectEvent)
        ensures
            event@ == self@,
    {
        match self {
            SelectEvent::Success { sender_thread, selected_index } => SelectEvent::Success {
                sender_thread: sender_thread.clone(),
                selected_index: *selected_index,
            },
            SelectEvent::RecvError { selected_index } => SelectEvent::RecvError {
                selected_index: *selected_index,
            },
        }
    }
}

/// Record of one result of a select over inter-process channels.
#[derive(Debug, PartialEq, Eq)]
pub enum IpcSelectEvent {
    MessageReceived(u64, MaybeId),
    ChannelClosed(u64),
}

/// Mathematical value of an `IpcSelectEvent`.
pub enum IpcSelectEventView {
    MessageReceived(u64, Option<Seq<u32>>),
    ChannelClosed(u64),
}

impl View for IpcSelectEvent {
    type V = IpcSelectEventView;

    open spec fn view(&self) -> IpcSelectEventView {
        match *self {
            IpcSelectEvent::MessageReceived(
                index,
                sender,
            ) => IpcSelectEventView::MessageReceived(index, sender@),
            IpcSelectEvent::ChannelClosed(index) => IpcSelectEventView::ChannelClosed(index),
        }
    }
}

impl Clone for IpcSelectEvent {
    fn clone(&self) -> (event: IpcSelectEvent)
        ensures
            event@ == self@,
    {
        match self {
            IpcSelectEvent::MessageReceived(index, sender) => IpcSelectEvent::MessageReceived(
                *index,
                sender.clone(),
            ),
            IpcSelectEvent::ChannelClosed(index) => IpcSelectEvent::ChannelClosed(*index),
        }
    }
}

/// The mathematical values of a list of `IpcSelectEvent`s.
pub open spec fn select_events_view(events: Seq<IpcSelectEvent>) -> Seq<IpcSelectEventView> {
    events.map_values(|event: IpcSelectEvent| event@)
}

/// Copies a list of select events.
fn clone_select_events(events: &Vec<IpcSelectEvent>) -> (copy: Vec<IpcSelectEvent>)
    ensures
        select_events_view(copy@) == select_events_view(events@),
{
    let mut copy: Vec<IpcSelectEvent> = Vec::new();
    let mut i: usize = 0;
    while i < events.len()
        invariant
            i <= events@.len(),
            copy@.len() == i,
            forall|j: int| 0 <= j < i ==> (#[trigger] copy@[j])@ == events@[j]@,
        decreases events@.len() - i,
    {
        copy.push(events[i].clone());
        i += 1;
    }
    assert(select_events_view(copy@) =~= select_events_view(events@));
    copy
}

/// Entries of the log are tagged with the kind of channel that they belong to.
#[derive(Debug, Clone, Copy, PartialEq, Eq, Structural)]
pub enum FlavorMarker {
    MpscBounded,
    MpscUnbounded,
    Unbounded,
    After,
    Bounded,
    Never,
    NoFlavor,
    Ipc,
    IpcSelect,
    Select,
}

/// Stands for any error of an inter-process channel.
#[derive(Debug, Clone, Copy, PartialEq, Eq, Structural)]
pub struct IpcDummyError {}

/// Operations that may block.
#[derive(Debug, Clone, Copy, PartialEq, Eq, Structural)]
pub enum BlockingOp {
    Select,
    IpcSelect,
    Recv,
    IpcRecv,
}

/// Whether an operation may block.
#[derive(Debug, Clone, Copy, PartialEq, Eq, Structural)]
pub enum Blocking {
    CannotBlock,
    CanBlock,
}

/// The kinds of events.
#[derive(Debug, PartialEq, Eq)]
pub enum Recorded {
    SelectReady { select_index: usize },
    Select(SelectEvent),
    RecvSucc { sender_thread: MaybeId },
    RecvErr(RecvErrorDef),
    MpscRecvSucc { sender_thread: MaybeId },
    MpscRecvErr(MpscRecvErrorDef),
    TryRecvSucc { sender_thread: MaybeId },
    TryRecvErr(TryRecvErrorDef),
    MpscTryRecvSucc { sender_thread: MaybeId },
    MpscTryRecvErr(MpscTryRecvErrorDef),
    RecvTimeoutSucc { sender_thread: MaybeId },
    RecvTimeoutErr(RecvTimeoutErrorDef),
    MpscRecvTimeoutSucc { sender_thread: MaybeId },
    MpscRecvTimeoutErr(MpscRecvTimeoutErrorDef),
    IpcRecvSucc { sender_thread: MaybeId },
    IpcRecvErr(IpcDummyError),
    Sender,
    MpscSender,
    IpcSender,
    IpcSelectAdd(u64),
    IpcSelect { select_events: Vec<IpcSelectEvent> },
}

/// Mathematical value of a `Recorded`.
pub enum RecordedView {
    SelectReady { select_index: usize },
    Select(SelectEventView),
    RecvSucc { sender_thread: Option<Seq<u32>> },
    RecvErr(RecvErrorDef),
    MpscRecvSucc { sender_thread: Option<Seq<u32>> },
    MpscRecvErr(MpscRecvErrorDef),
    TryRecvSucc { sender_thread: Option<Seq<u32>> },
    TryRecvErr(TryRecvErrorDef),
    MpscTryRecvSucc { sender_thread: Option<Seq<u32>> },
    MpscTryRecvErr(MpscTryRecvErrorDef),
    RecvTimeoutSucc { sender_thread: Option<Seq<u32>> },
    RecvTimeoutErr(RecvTimeoutErrorDef),
    MpscRecvTimeoutSucc { sender_thread: Option<Seq<u32>> },
    MpscRecvTimeoutErr(MpscRecvTimeoutErrorDef),
    IpcRecvSucc { sender_thread: Option<Seq<u32>> },
    IpcRecvErr(IpcDummyError),
    Sender,
    MpscSender,
    IpcSender,
    IpcSelectAdd(u64),
    IpcSelect { select_events: Seq<IpcSelectEventView> },
}

impl View for Recorded {
    type V = RecordedView;

    open spec fn view(&self) -> RecordedView {
        match *self {
            Recorded::SelectReady { select_index } => RecordedView::SelectReady { select_index },
            Recorded::Select(e) => RecordedView::Select(e@),
            Recorded::RecvSucc { sender_thread } => RecordedView::RecvSucc {
                sender_thread: sender_thread@,
            },
            Recorded::RecvErr(e) => RecordedView::RecvErr(e),
            Recorded::MpscRecvSucc { sender_thread } => RecordedView::MpscRecvSucc {
                sender_thread: sender_thread@,
            },
            Recorded::MpscRecvErr(e) => RecordedView::MpscRecvErr(e),
            Recorded::TryRecvSucc { sender_thread } => RecordedView::TryRecvSucc {
                sender_thread: sender_thread@,
            },
            Recorded::TryRecvErr(e) => RecordedView::TryRecvErr(e),
            Recorded::MpscTryRecvSucc { sender_thread } => RecordedView::MpscTryRecvSucc {
                sender_thread: sender_thread@,
            },
            Recorded::MpscTryRecvErr(e) => RecordedView::MpscTryRecvErr(e),
            Recorded::RecvTimeoutSucc { sender_thread } => RecordedView::RecvTimeoutSucc {
                sender_thread: sender_thread@,
            },
            Recorded::RecvTimeoutErr(e) => RecordedView::RecvTimeoutErr(e),
            Recorded::MpscRecvTimeoutSucc { sender_thread } => RecordedView::MpscRecvTimeoutSucc {
                sender_thread: sender_thread@,
            },
            Recorded::MpscRecvTimeoutErr(e) => RecordedView::MpscRecvTimeoutErr(e),
            Recorded::IpcRecvSucc { sender_thread } => RecordedView::IpcRecvSucc {
                sender_thread: sender_thread@,
            },
            Recorded::IpcRecvErr(e) => RecordedView::IpcRecvErr(e),
            Recorded::Sender => RecordedView::Sender,
            Recorded::MpscSender => RecordedView::MpscSender,
            Recorded::IpcSender => RecordedView::IpcSender,
            Recorded::IpcSelectAdd(e) => RecordedView::IpcSelectAdd(e),
            Recorded::IpcSelect { select_events } => RecordedView::IpcSelect {
                select_events: select_events_view(select_events@),
            },
        }
    }
}

impl Clone for Recorded {
    fn clone(&self) -> (event: Recorded)
        ensures
            event@ == self@,
    {
        match self {
            Recorded::SelectReady { select_index } => Recorded::SelectReady {
                select_index: *select_index,
            },
            Recorded::Select(e) => Recorded::Select(e.clone()),
            Recorded::RecvSucc { sender_thread } => Recorded::RecvSucc {
                sender_thread: sender_thread.clone(),
            },
            Recorded::RecvErr(e) => Recorded::RecvErr(*e),
            Recorded::MpscRecvSucc { sender_thread } => Recorded::MpscRecvSucc {
                sender_thread: sender_thread.clone(),
            },
            Recorded::MpscRecvErr(e) => Recorded::MpscRecvErr(*e),
            Recorded::TryRecvSucc { sender_thread } => Recorded::TryRecvSucc {
                sender_thread: sender_thread.clone(),
            },
            Recorded::TryRecvErr(e) => Recorded::TryRecvErr(*e),
            Recorded::MpscTryRecvSucc { sender_thread } => Recorded::MpscTryRecvSucc {
                sender_thread: sender_thread.clone(),
            },
            Recorded::MpscTryRecvErr(e) => Recorded::MpscTryRecvErr(*e),
            Recorded::RecvTimeoutSucc { sender_thread } => Recorded::RecvTimeoutSucc {
                sender_thread: sender_thread.clone(),
            },
            Recorded::RecvTimeoutErr(e) => Recorded::RecvTimeoutErr(*e),
            Recorded::MpscRecvTimeoutSucc { sender_thread } => Recorded::MpscRecvTimeoutSucc {
                sender_thread: sender_thread.clone(),
            },
            Recorded::MpscRecvTimeoutErr(e) => Recorded::MpscRecvTimeoutErr(*e),
            Recorded::IpcRecvSucc { sender_thread } => Recorded::IpcRecvSucc {
                sender_thread: sender_thread.clone(),
            },
            Recorded::IpcRecvErr(e) => Recorded::IpcRecvErr(*e),
            Recorded::Sender => Recorded::Sender,
            Recorded::MpscSender => Recorded::MpscSender,
            Recorded::IpcSender => Recorded::IpcSender,
            Recorded::IpcSelectAdd(e) => Recorded::IpcSelectAdd(*e),
            Recorded::IpcSelect { select_events } => Recorded::IpcSelect {
                select_events: clone_select_events(select_events),
            },
        }
    }
}

/// The number of an event on its thread.
pub type EventId = u32;

/// The id of a channel: the thread that created it, and its number on that thread.
#[derive(Debug)]
pub struct DetChannelId {
    pub det_thread_id: MaybeId,
    pub channel_id: u32,
}

/// Mathematical value of a `DetChannelId`.
pub struct ChannelIdView {
    pub thread: Option<Seq<u32>>,
    pub channel: u32,
}

impl View for DetChannelId {
    type V = ChannelIdView;

    open spec fn view(&self) -> ChannelIdView {
        ChannelIdView { thread: self.det_thread_id@, channel: self.channel_id }
    }
}

impl Clone for DetChannelId {
    fn clone(&self) -> (id: DetChannelId)
        ensures
            id@ == self@,
    {
        DetChannelId { det_thread_id: self.det_thread_id.clone(), channel_id: self.channel_id }
    }
}

impl PartialEq for DetChannelId {
    fn eq(&self, other: &DetChannelId) -> (equal: bool) {
        self.det_thread_id.same_id(&other.det_thread_id) && self.channel_id == other.channel_id
    }
}

impl vstd::std_specs::cmp::PartialEqSpecImpl for DetChannelId {
    open spec fn obeys_eq_spec() -> bool {
        true
    }

    open spec fn eq_spec(&self, other: &DetChannelId) -> bool {
        self@ == other@
    }
}

impl Eq for DetChannelId {
}

impl DetChannelId {
    /// Assigns an id to a new channel of the thread.
    pub fn new(thread: &mut ThreadContext) -> (id: DetChannelId)
        ensures
            id@ == (ChannelIdView {
                thread: old(thread)@.det_id,
                channel: old(thread)@.channel_id,
            }),
            final(thread)@ == (ContextView {
                channel_id: ((old(thread)@.channel_id + 1) % 0x1_0000_0000) as u32,
                ..old(thread)@
            }),
    {
        let det_thread_id = get_det_id(thread);
        let channel_id: u32 = get_and_inc_channel_id(thread);
        DetChannelId { det_thread_id, channel_id }
    }

    /// An id where one is asked for, but no channel is meant.
    pub fn fake() -> (id: DetChannelId)
        ensures
            id@ == fake_channel(),
    {
        DetChannelId { det_thread_id: MaybeId::none(), channel_id: 0 }
    }
}

/// The mathematical value of the id that stands for no channel.
pub open spec fn fake_channel() -> ChannelIdView {
    ChannelIdView { thread: None, channel: 0 }
}

/// Describes a channel in the entries of the log.
#[derive(Debug)]
pub struct RecordMetadata {
    pub message_type: String,
    pub flavor: FlavorMarker,
    pub mode: RRMode,
    pub id: DetChannelId,
}

/// Every reason why a replay may fail to follow its log.
#[derive(Debug, PartialEq, Eq)]
pub enum DesyncError {
    /// There is no entry for this event of this thread.
    NoEntryInLog(DetThreadId, EventId),
    /// Logged flavor, current flavor.
    FlavorMismatch(FlavorMarker, FlavorMarker),
    /// Logged channel, current channel.
    ChannelMismatch(DetChannelId, DetChannelId),
    /// Logged event, current event.
    EventMismatch(Recorded, Recorded),
    /// The thread has no id.
    UnitializedDetThreadId,
    MissingReceiver(u64),
    SelectExistingEntry(u64),
    SelectIndexMismatch(u64, u64),
    Desynchronized,
    ChannelClosedExpected,
    Disconnected,
    ChannelClosedUnexpected(u64),
    Timedout,
    DesynchronizedWakeup,
}

/// Mathematical value of a `DesyncError`.
pub enum DesyncErrorView {
    NoEntryInLog(Seq<u32>, EventId),
    FlavorMismatch(FlavorMarker, FlavorMarker),
    ChannelMismatch(ChannelIdView, ChannelIdView),
    EventMismatch(RecordedView, RecordedView),
    UnitializedDetThreadId,
    MissingReceiver(u64),
    SelectExistingEntry(u64),
    SelectIndexMismatch(u64, u64),
    Desynchronized,
    ChannelClosedExpected,
    Disconnected,
    ChannelClosedUnexpected(u64),
    Timedout,
    DesynchronizedWakeup,
}

impl View for DesyncError {
    type V = DesyncErrorView;

    open spec fn view(&self) -> DesyncErrorView {
        match *self {
            DesyncError::NoEntryInLog(thread, event) => DesyncErrorView::NoEntryInLog(
                thread@,
                event,
            ),
            DesyncError::FlavorMismatch(logged, actual) => DesyncErrorView::FlavorMismatch(
                logged,
                actual,
            ),
            DesyncError::ChannelMismatch(logged, actual) => DesyncErrorView::ChannelMismatch(
                logged@,
                actual@,
            ),
            DesyncError::EventMismatch(logged, actual) => DesyncErrorView::EventMismatch(
                logged@,
                actual@,
            ),
            DesyncError::UnitializedDetThreadId => DesyncErrorView::UnitializedDetThreadId,
            DesyncError::MissingReceiver(index) => DesyncErrorView::MissingReceiver(index),
            DesyncError::SelectExistingEntry(index) => DesyncErrorView::SelectExistingEntry(index),
            DesyncError::SelectIndexMismatch(
                expected,
                found,
            ) => DesyncErrorView::SelectIndexMismatch(expected, found),
            DesyncError::Desynchronized => DesyncErrorView::Desynchronized,
            DesyncError::ChannelClosedExpected => DesyncErrorView::ChannelClosedExpected,
            DesyncError::Disconnected => DesyncErrorView::Disconnected,
            DesyncError::ChannelClosedUnexpected(index) => DesyncErrorView::ChannelClosedUnexpected(
                index,
            ),
            DesyncError::Timedout => DesyncErrorView::Timedout,
            DesyncError::DesynchronizedWakeup => DesyncErrorView::DesynchronizedWakeup,
        }
    }
}

/// The mathematical value of a result whose error is a desynchronization.
pub open spec fn result_view<T>(r: Result<T, DesyncError>) -> Result<T, DesyncErrorView> {
    match r {
        Ok(v) => Ok(v),
        Err(e) => Err(e@),
    }
}

/// A receive error seen as a desynchronization.
impl From<RecvErrorRR> for DesyncError {
    fn from(e: RecvErrorRR) -> (r: DesyncError) {
        match e {
            RecvErrorRR::Disconnected => DesyncError::Disconnected,
            RecvErrorRR::Timeout => DesyncError::Timedout,
        }
    }
}

impl vstd::std_specs::convert::FromSpecImpl<RecvErrorRR> for DesyncError {
    open spec fn obeys_from_spec() -> bool {
        true
    }

    open spec fn from_spec(e: RecvErrorRR) -> DesyncError {
        match e {
            RecvErrorRR::Disconnected => DesyncError::Disconnected,
            RecvErrorRR::Timeout => DesyncError::Timedout,
        }
    }
}

/// The id of the thread, where an operation cannot do without.
pub fn get_det_id_desync(thread: &ThreadContext) -> (r: Result<DetThreadId, DesyncError>)
    ensures
        match r {
            Ok(id) => thread@.det_id == Some(id@),
            Err(e) => thread@.det_id is None && e == DesyncError::UnitializedDetThreadId,
        },
{
    match get_det_id(thread).id {
        Some(id) => Ok(id),
        None => Err(DesyncError::UnitializedDetThreadId),
    }
}

/// An entry of the log. The thread and the event number are its key.
#[derive(Debug, PartialEq, Eq)]
pub struct LogEntry {
    pub current_thread: MaybeId,
    pub event_id: u32,
    pub event: Recorded,
    pub channel: FlavorMarker,
    pub chan_id: DetChannelId,
    pub message_type: String,
}

/// Mathematical value of a `LogEntry`.
pub struct LogEntryView {
    pub current_thread: Option<Seq<u32>>,
    pub event_id: u32,
    pub event: RecordedView,
    pub channel: FlavorMarker,
    pub chan_id: ChannelIdView,
    pub message_type: Seq<char>,
}

impl View for LogEntry {
    type V = LogEntryView;

    open spec fn view(&self) -> LogEntryView {
        LogEntryView {
            current_thread: self.current_thread@,
            event_id: self.event_id,
            event: self.event@,
            channel: self.channel,
            chan_id: self.chan_id@,
            message_type: self.message_type@,
        }
    }
}

/// The entry that the thread logs for its next event.
pub open spec fn next_entry(
    thread: ContextView,
    event: RecordedView,
    channel: FlavorMarker,
    message_type: Seq<char>,
    chan_id: ChannelIdView,
) -> LogEntryView {
    LogEntryView {
        current_thread: thread.det_id,
        event_id: thread.event_id,
        event,
        channel,
        chan_id,
        message_type,
    }
}

/// Counts an event of the thread. The result is the entry that is to be appended to the log.
pub fn log(
    thread: &mut ThreadContext,
    event: Recorded,
    channel: FlavorMarker,
    message_type: &String,
    chan_id: &DetChannelId,
) -> (entry: LogEntry)
    requires
        old(thread)@.event_id < u32::MAX,
    ensures
        entry@ == next_entry(old(thread)@, event@, channel, message_type@, chan_id@),
        final(thread)@ == old(thread)@.next_event(),
{
    let entry = LogEntry {
        current_thread: get_det_id(thread),
        event_id: get_event_id(thread),
        event,
        channel,
        chan_id: chan_id.clone(),
        message_type: message_type.clone(),
    };
    inc_event_id(thread);
    entry
}

/// What is logged under a key.
#[derive(Debug)]
pub struct Logged {
    pub event: Recorded,
    pub flavor: FlavorMarker,
    pub id: DetChannelId,
}

/// Mathematical value of a `Logged`.
pub struct LoggedView {
    pub event: RecordedView,
    pub flavor: FlavorMarker,
    pub id: ChannelIdView,
}

impl View for Logged {
    type V = LoggedView;

    open spec fn view(&self) -> LoggedView {
        LoggedView { event: self.event@, flavor: self.flavor, id: self.id@ }
    }
}

/// The entries of a recorded run, by key.
#[derive(Debug)]
pub struct RecordedIndices {
    entries: Vec<((DetThreadId, EventId), Logged)>,
}

/// The log as a map.
pub type IndicesView = Map<(Seq<u32>, EventId), LoggedView>;

/// The entry at position `i` has this key.
spec fn key_at(
    entries: Seq<((DetThreadId, EventId), Logged)>,
    i: int,
    key: (Seq<u32>, EventId),
) -> bool {
    (entries[i].0.0@, entries[i].0.1) == key
}

spec fn has_key(
    entries: Seq<((DetThreadId, EventId), Logged)>,
    key: (Seq<u32>, EventId),
) -> bool {
    exists|i: int| 0 <= i < entries.len() && #[trigger] key_at(entries, i, key)
}

/// No key occurs twice.
spec fn distinct(entries: Seq<((DetThreadId, EventId), Logged)>) -> bool {
    forall|i: int, j: int|
        #![trigger entries[i], entries[j]]
        0 <= i < j < entries.len() ==> (entries[i].0.0@, entries[i].0.1) != (
            entries[j].0.0@,
            entries[j].0.1,
        )
}

impl View for RecordedIndices {
    type V = IndicesView;

    closed spec fn view(&self) -> IndicesView {
        Map::new(
            |key: (Seq<u32>, EventId)| has_key(self.entries@, key),
            |key: (Seq<u32>, EventId)|
                self.entries@[choose|i: int|
                    0 <= i < self.entries@.len() && #[trigger] key_at(self.entries@, i, key)].1@,
        )
    }
}

/// The log that a list of entries makes, oldest first: those of threads without an id are skipped.
/// None if two entries have the same key.
pub open spec fn indices_of(entries: Seq<LogEntryView>) -> Option<IndicesView>
    decreases entries.len(),
{
    if entries.len() == 0 {
        Some(Map::empty())
    } else {
        let last = entries.last();
        match indices_of(entries.drop_last()) {
            None => None,
            Some(earlier) => match last.current_thread {
                None => Some(earlier),
                Some(thread) => if earlier.contains_key((thread, last.event_id)) {
                    None
                } else {
                    Some(
                        earlier.insert(
                            (thread, last.event_id),
                            LoggedView {
                                event: last.event,
                                flavor: last.channel,
                                id: last.chan_id,
                            },
                        ),
                    )
                },
            },
        }
    }
}

/// The mathematical values of a list of entries.
pub open spec fn log_view(entries: Seq<LogEntry>) -> Seq<LogEntryView> {
    entries.map_values(|entry: LogEntry| entry@)
}

impl RecordedIndices {
    pub closed spec fn wf(&self) -> bool {
        distinct(self.entries@)
    }

    proof fn lemma_at(&self, i: int)
        requires
            self.wf(),
            0 <= i < self.entries@.len(),
        ensures
            self@.contains_key((self.entries@[i].0.0@, self.entries@[i].0.1)),
            self@[(self.entries@[i].0.0@, self.entries@[i].0.1)] == self.entries@[i].1@,
    {
        let key = (self.entries@[i].0.0@, self.entries@[i].0.1);
        assert(key_at(self.entries@, i, key));
        let p = choose|p: int|
            0 <= p < self.entries@.len() && #[trigger] key_at(self.entries@, p, key);
        if p < i {
            assert(self.entries@[p].0.0@ != self.entries@[i].0.0@ || self.entries@[p].0.1
                != self.entries@[i].0.1);
        } else if i < p {
            assert(self.entries@[i].0.0@ != self.entries@[p].0.0@ || self.entries@[i].0.1
                != self.entries@[p].0.1);
        }
    }

    pub fn new() -> (indices: RecordedIndices)
        ensures
            indices.wf(),
            indices@ == IndicesView::empty(),
    {
        let indices = RecordedIndices { entries: Vec::new() };
        assert(indices@ =~= IndicesView::empty());
        indices
    }

    /// What is logged under this key.
    pub fn get(&self, thread: &DetThreadId, event_id: EventId) -> (logged: Option<&Logged>)
        requires
            self.wf(),
        ensures
            match logged {
                Some(logged) => {
                    &&& self@.contains_key((thread@, event_id))
                    &&& logged@ == self@[(thread@, event_id)]
                },
                None => !self@.contains_key((thread@, event_id)),
            },
    {
        let mut i: usize = 0;
        while i < self.entries.len()
            invariant
                self.wf(),
                i <= self.entries@.len(),
                forall|j: int|
                    0 <= j < i ==> !(#[trigger] key_at(self.entries@, j, (thread@, event_id))),
            decreases self.entries@.len() - i,
        {
            if self.entries[i].0.1 == event_id && self.entries[i].0.0.same_path(thread) {
                proof {
                    self.lemma_at(i as int);
                }
                return Some(&self.entries[i].1);
            }
            i += 1;
        }
        None
    }

    /// Adds an entry, unless there is one with the same key.
    fn insert(&mut self, thread: DetThreadId, event_id: EventId, logged: Logged) -> (added: bool)
        requires
            old(self).wf(),
        ensures
            final(self).wf(),
            added == !old(self)@.contains_key((thread@, event_id)),
            final(self)@ == if added {
                old(self)@.insert((thread@, event_id), logged@)
            } else {
                old(self)@
            },
    {
        if self.get(&thread, event_id).is_some() {
            return false;
        }
        let ghost key = (thread@, event_id);
        assert(!has_key(self.entries@, key));
        self.entries.push(((thread, event_id), logged));
        proof {
            let before = old(self).entries@;
            let after = self.entries@;
            assert forall|i: int, j: int|
                #![trigger after[i], after[j]]
                0 <= i < j < after.len() implies (after[i].0.0@, after[i].0.1) != (
                after[j].0.0@,
                after[j].0.1,
            ) by {
                assert(after[i] == before[i]);
                if j == before.len() {
                    assert(!key_at(before, i, key));
                } else {
                    assert(after[j] == before[j]);
                }
            }
            assert forall|k: (Seq<u32>, EventId)| has_key(after, k) == (has_key(before, k) || k
                == key) by {
                if has_key(before, k) {
                    let p = choose|p: int| 0 <= p < before.len() && #[trigger] key_at(before, p, k);
                    assert(key_at(after, p, k));
                }
                if k == key {
                    assert(key_at(after, before.len() as int, k));
                }
                if has_key(after, k) {
                    let p = choose|p: int| 0 <= p < after.len() && #[trigger] key_at(after, p, k);
                    if p < before.len() {
                        assert(key_at(before, p, k));
                    }
                }
            }
            assert forall|k: (Seq<u32>, EventId)| self@.contains_key(k) implies self@[k]
                == old(self)@.insert(key, logged@)[k] by {
                let p = choose|p: int| 0 <= p < after.len() && #[trigger] key_at(after, p, k);
                self.lemma_at(p);
                if p < before.len() {
                    assert(key_at(before, p, k));
                    old(self).lemma_at(p);
                }
            }
            assert(self@ =~= old(self)@.insert(key, logged@));
        }
        true
    }

    /// Reads a log, oldest entry first. Fails if two entries have the same key.
    pub fn from_log(log: Vec<LogEntry>) -> (indices: Option<RecordedIndices>)
        ensures
            match indices {
                Some(indices) => indices.wf() && indices_of(log_view(log@)) == Some(indices@),
                None => indices_of(log_view(log@)) is None,
            },
    {
        let ghost all = log_view(log@);
        let mut indices = RecordedIndices::new();
        let mut i: usize = 0;
        assert(all.take(0) =~= Seq::<LogEntryView>::empty());
        while i < log.len()
            invariant
                i <= log@.len(),
                all == log_view(log@),
                indices.wf(),
                indices_of(all.take(i as int)) == Some(indices@),
            decreases log@.len() - i,
        {
            let entry = &log[i];
            assert(all.take(i + 1).drop_last() =~= all.take(i as int));
            assert(all.take(i + 1).last() == entry@);
            match &entry.current_thread.id {
                None => {},
                Some(thread) => {
                    let logged = Logged {
                        event: entry.event.clone(),
                        flavor: entry.channel,
                        id: entry.chan_id.clone(),
                    };
                    if !indices.insert(thread.clone(), entry.event_id, logged) {
                        proof {
                            lemma_corrupted(all, i + 1);
                        }
                        return None;
                    }
                },
            }
            i += 1;
        }
        assert(all.take(i as int) =~= all);
        Some(indices)
    }
}

/// A log that is corrupted at its start is corrupted.
proof fn lemma_corrupted(entries: Seq<LogEntryView>, n: int)
    requires
        0 <= n <= entries.len(),
        indices_of(entries.take(n)) is None,
    ensures
        indices_of(entries) is None,
    decreases entries.len() - n,
{
    if n == entries.len() {
        assert(entries.take(n) =~= entries);
    } else {
        assert(entries.take(n + 1).drop_last() =~= entries.take(n));
        lemma_corrupted(entries, n + 1);
    }
}

/// What a look into the log gives, where the flavor and the channel are compared if there are any.
pub open spec fn lookup(
    indices: IndicesView,
    thread: Seq<u32>,
    event_id: EventId,
    flavor: Option<FlavorMarker>,
    id: Option<ChannelIdView>,
) -> Result<LoggedView, DesyncErrorView> {
    if !indices.contains_key((thread, event_id)) {
        Err(DesyncErrorView::NoEntryInLog(thread, event_id))
    } else {
        let logged = indices[(thread, event_id)];
        match flavor {
            Some(flavor) if logged.flavor != flavor => Err(
                DesyncErrorView::FlavorMismatch(logged.flavor, flavor),
            ),
            _ => match id {
                Some(id) if logged.id != id => Err(DesyncErrorView::ChannelMismatch(logged.id, id)),
                _ => Ok(logged),
            },
        }
    }
}

/// Looks into the log, comparing the flavor and the channel if there are any.
fn get_log_entry_do<'a>(
    indices: &'a RecordedIndices,
    our_thread: DetThreadId,
    event_id: EventId,
    curr_flavor: Option<FlavorMarker>,
    curr_id: Option<&DetChannelId>,
) -> (r: Result<&'a Logged, DesyncError>)
    requires
        indices.wf(),
    ensures
        ({
            let id = match curr_id {
                Some(id) => Some(id@),
                None => None,
            };
            match r {
                Ok(logged) => lookup(indices@, our_thread@, event_id, curr_flavor, id) == Ok::<
                    LoggedView,
                    DesyncErrorView,
                >(logged@),
                Err(e) => lookup(indices@, our_thread@, event_id, curr_flavor, id) == Err::<
                    LoggedView,
                    DesyncErrorView,
                >(e@),
            }
        }),
{
    match indices.get(&our_thread, event_id) {
        Some(logged) => {
            match curr_flavor {
                Some(curr_flavor) => {
                    if logged.flavor != curr_flavor {
                        return Err(DesyncError::FlavorMismatch(logged.flavor, curr_flavor));
                    }
                },
                None => {},
            }
            match curr_id {
                Some(curr_id) => {
                    if logged.id != *curr_id {
                        return Err(
                            DesyncError::ChannelMismatch(logged.id.clone(), curr_id.clone()),
                        );
                    }
                },
                None => {},
            }
            Ok(logged)
        },
        None => Err(DesyncError::NoEntryInLog(our_thread, event_id)),
    }
}

/// The logged event, whose flavor and channel have to be these.
pub fn get_log_entry_with(
    indices: &RecordedIndices,
    our_thread: DetThreadId,
    event_id: EventId,
    curr_flavor: FlavorMarker,
    curr_id: &DetChannelId,
) -> (r: Result<Recorded, DesyncError>)
    requires
        indices.wf(),
    ensures
        logged_event(
            lookup(indices@, our_thread@, event_id, Some(curr_flavor), Some(curr_id@)),
            r,
        ),
{
    match get_log_entry_do(indices, our_thread, event_id, Some(curr_flavor), Some(curr_id)) {
        Ok(logged) => Ok(logged.event.clone()),
        Err(e) => Err(e),
    }
}

/// `r` is the event that was found, or why there is none.
pub open spec fn logged_event(
    found: Result<LoggedView, DesyncErrorView>,
    r: Result<Recorded, DesyncError>,
) -> bool {
    match found {
        Ok(logged) => r matches Ok(event) && event@ == logged.event,
        Err(e) => r matches Err(error) && error@ == e,
    }
}

/// The logged event, without any comparison.
pub fn get_log_entry(indices: &RecordedIndices, our_thread: DetThreadId, event_id: EventId) -> (r:
    Result<Recorded, DesyncError>)
    requires
        indices.wf(),
    ensures
        logged_event(lookup(indices@, our_thread@, event_id, None, None), r),
{
    match get_log_entry_do(indices, our_thread, event_id, None, None) {
        Ok(logged) => Ok(logged.event.clone()),
        Err(e) => Err(e),
    }
}

/// The logged event with its flavor and its channel, without any comparison.
pub fn get_log_entry_ret(
    indices: &RecordedIndices,
    our_thread: DetThreadId,
    event_id: EventId,
) -> (r: Result<(Recorded, FlavorMarker, DetChannelId), DesyncError>)
    requires
        indices.wf(),
    ensures
        match lookup(indices@, our_thread@, event_id, None, None) {
            Ok(logged) => {
                &&& r matches Ok((event, flavor, id))
                &&& event@ == logged.event
                &&& flavor == logged.flavor
                &&& id@ == logged.id
            },
            Err(e) => r matches Err(error) && error@ == e,
        },
{
    match get_log_entry_do(indices, our_thread, event_id, None, None) {
        Ok(logged) => Ok((logged.event.clone(), logged.flavor, logged.id.clone())),
        Err(e) => Err(e),
    }
}

} // verus!
