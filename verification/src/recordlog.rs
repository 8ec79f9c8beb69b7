//! The events that a run consists of, and the log that keeps them.

use vstd::prelude::*;
use crate::detthread::DetThreadId;
use crate::error::{
    DesyncError, DesyncErrorView, MpscRecvErrorDef, MpscRecvTimeoutErrorDef, MpscTryRecvErrorDef,
    RecvErrorDef, RecvTimeoutErrorDef, TryRecvErrorDef,
};
use crate::rr::{ChannelIdView, DetChannelId};

verus! {

/// Record of a completed select over several channels.
#[derive(Debug, PartialEq, Eq)]
pub enum SelectEvent {
    Success {
        /// A channel may have several producers: the index tells the receiving end, this tells
        /// the sending one.
        sender_thread: DetThreadId,
        /// Index of the selected channel.
        selected_index: usize,
    },
    RecvError {
        /// Index of the selected channel.
        selected_index: usize,
    },
}

/// Record of one result of a select over inter-process channels.
#[derive(Debug, PartialEq, Eq)]
pub enum IpcSelectEvent {
    /// A message from this thread at this index.
    MessageReceived(u64, DetThreadId),
    /// The channel at this index was closed.
    ChannelClosed(u64),
}

/// Entries of the log are tagged with the kind of channel that they belong to.
#[derive(Debug, Clone, Copy, PartialEq, Eq, Structural)]
pub enum ChannelVariant {
    MpscBounded,
    MpscUnbounded,
    CbUnbounded,
    CbAfter,
    CbBounded,
    CbNever,
    NoChannel,
    Ipc,
    IpcSelect,
    Select,
}

/// Kinds of failures of an inter-process channel.
#[derive(Debug, Clone, Copy, PartialEq, Eq, Structural)]
pub enum IpcErrorVariants {
    Bincode,
    Io,
    Disconnected,
}

/// The events of a run. An event holds all that is needed to replay it: the error that was seen,
/// or the index or the thread from which the message is to be expected.
#[derive(Debug, PartialEq, Eq)]
pub enum TivoEvent {
    ChannelCreation,
    CrossbeamSender,
    CrossbeamRecvSucc { sender_thread: DetThreadId },
    CrossbeamRecvErr(RecvErrorDef),
    CrossbeamSelectReady { select_index: usize },
    CrossbeamSelect(SelectEvent),
    CrossbeamRecvTimeoutSucc { sender_thread: DetThreadId },
    CrossbeamRecvTimeoutErr(RecvTimeoutErrorDef),
    CrossbeamTryRecvSucc { sender_thread: DetThreadId },
    CrossbeamTryRecvErr(TryRecvErrorDef),
    MpscRecvTimeoutSucc { sender_thread: DetThreadId },
    MpscRecvSucc { sender_thread: DetThreadId },
    MpscRecvErr(MpscRecvErrorDef),
    MpscSender,
    MpscTryRecvSucc { sender_thread: DetThreadId },
    MpscTryRecvErr(MpscTryRecvErrorDef),
    MpscRecvTimeoutErr(MpscRecvTimeoutErrorDef),
    IpcRecvSucc { sender_thread: DetThreadId },
    IpcError(IpcErrorVariants),
    IpcTryRecvErrorEmpty,
    IpcTryRecvIpcError(IpcErrorVariants),
    IpcSender,
    /// A receiver was added to a receiver set at this index.
    IpcSelectAdd(u64),
    IpcSelect { select_events: Vec<IpcSelectEvent> },
    /// The current thread spawned a child thread with this id.
    ThreadInitialized(DetThreadId),
}

/// Mathematical value of a `SelectEvent`.
pub enum SelectEventView {
    Success { sender_thread: Seq<u32>, selected_index: usize },
    RecvError { selected_index: usize },
}

/// Mathematical value of an `IpcSelectEvent`.
pub enum IpcSelectEventView {
    MessageReceived(u64, Seq<u32>),
    ChannelClosed(u64),
}

/// Mathematical value of a `TivoEvent`.
pub enum TivoEventView {
    ChannelCreation,
    CrossbeamSender,
    CrossbeamRecvSucc { sender_thread: Seq<u32> },
    CrossbeamRecvErr(RecvErrorDef),
    CrossbeamSelectReady { select_index: usize },
    CrossbeamSelect(SelectEventView),
    CrossbeamRecvTimeoutSucc { sender_thread: Seq<u32> },
    CrossbeamRecvTimeoutErr(RecvTimeoutErrorDef),
    CrossbeamTryRecvSucc { sender_thread: Seq<u32> },
    CrossbeamTryRecvErr(TryRecvErrorDef),
    MpscRecvTimeoutSucc { sender_thread: Seq<u32> },
    MpscRecvSucc { sender_thread: Seq<u32> },
    MpscRecvErr(MpscRecvErrorDef),
    MpscSender,
    MpscTryRecvSucc { sender_thread: Seq<u32> },
    MpscTryRecvErr(MpscTryRecvErrorDef),
    MpscRecvTimeoutErr(MpscRecvTimeoutErrorDef),
    IpcRecvSucc { sender_thread: Seq<u32> },
    IpcError(IpcErrorVariants),
    IpcTryRecvErrorEmpty,
    IpcTryRecvIpcError(IpcErrorVariants),
    IpcSender,
    IpcSelectAdd(u64),
    IpcSelect { select_events: Seq<IpcSelectEventView> },
    ThreadInitialized(Seq<u32>),
}

impl View for SelectEvent {
    type V = SelectEventView;

    open spec fn view(&self) -> SelectEventView {
        match *self {
            SelectEvent::Success { sender_thread, selected_index } => SelectEventView::Success {
                sender_thread: sender_thread@,
                selected_index,
            },
            SelectEvent::RecvError { selected_index } => SelectEventView::RecvError {
                selected_index,
            },
        }
    }
}

impl View for IpcSelectEvent {
    type V = IpcSelectEventView;

    open spec fn view(&self) -> IpcSelectEventView {
        match *self {
            IpcSelectEvent::MessageReceived(
                index,
                sender,
            ) => IpcSelectEventView::MessageReceived(index, sender@),
            IpcSelectEvent::ChannelClosed(index) => IpcSelectEventView::ChannelClosed(index),
        }
    }
}

/// The mathematical values of a list of `IpcSelectEvent`s.
pub open spec fn select_events_view(events: Seq<IpcSelectEvent>) -> Seq<IpcSelectEventView> {
    events.map_values(|event: IpcSelectEvent| event@)
}

impl View for TivoEvent {
    type V = TivoEventView;

    open spec fn view(&self) -> TivoEventView {
        match *self {
            TivoEvent::ChannelCreation => TivoEventView::ChannelCreation,
            TivoEvent::CrossbeamSender => TivoEventView::CrossbeamSender,
            TivoEvent::CrossbeamRecvSucc { sender_thread } => TivoEventView::CrossbeamRecvSucc {
                sender_thread: sender_thread@,
            },
            TivoEvent::CrossbeamRecvErr(e) => TivoEventView::CrossbeamRecvErr(e),
            TivoEvent::CrossbeamSelectReady { select_index } => TivoEventView::CrossbeamSelectReady {
                select_index,
            },
            TivoEvent::CrossbeamSelect(event) => TivoEventView::CrossbeamSelect(event@),
            TivoEvent::CrossbeamRecvTimeoutSucc {
                sender_thread,
            } => TivoEventView::CrossbeamRecvTimeoutSucc { sender_thread: sender_thread@ },
            TivoEvent::CrossbeamRecvTimeoutErr(e) => TivoEventView::CrossbeamRecvTimeoutErr(e),
            TivoEvent::CrossbeamTryRecvSucc {
                sender_thread,
            } => TivoEventView::CrossbeamTryRecvSucc { sender_thread: sender_thread@ },
            TivoEvent::CrossbeamTryRecvErr(e) => TivoEventView::CrossbeamTryRecvErr(e),
            TivoEvent::MpscRecvTimeoutSucc {
                sender_thread,
            } => TivoEventView::MpscRecvTimeoutSucc { sender_thread: sender_thread@ },
            TivoEvent::MpscRecvSucc { sender_thread } => TivoEventView::MpscRecvSucc {
                sender_thread: sender_thread@,
            },
            TivoEvent::MpscRecvErr(e) => TivoEventView::MpscRecvErr(e),
            TivoEvent::MpscSender => TivoEventView::MpscSender,
            TivoEvent::MpscTryRecvSucc { sender_thread } => TivoEventView::MpscTryRecvSucc {
                sender_thread: sender_thread@,
            },
            TivoEvent::MpscTryRecvErr(e) => TivoEventView::MpscTryRecvErr(e),
            TivoEvent::MpscRecvTimeoutErr(e) => TivoEventView::MpscRecvTimeoutErr(e),
            TivoEvent::IpcRecvSucc { sender_thread } => TivoEventView::IpcRecvSucc {
                sender_thread: sender_thread@,
            },
            TivoEvent::IpcError(e) => TivoEventView::IpcError(e),
            TivoEvent::IpcTryRecvErrorEmpty => TivoEventView::IpcTryRecvErrorEmpty,
            TivoEvent::IpcTryRecvIpcError(e) => TivoEventView::IpcTryRecvIpcError(e),
            TivoEvent::IpcSender => TivoEventView::IpcSender,
            TivoEvent::IpcSelectAdd(index) => TivoEventView::IpcSelectAdd(index),
            TivoEvent::IpcSelect { select_events } => TivoEventView::IpcSelect {
                select_events: select_events_view(select_events@),
            },
            TivoEvent::ThreadInitialized(id) => TivoEventView::ThreadInitialized(id@),
        }
    }
}

impl Clone for SelectEvent {
    fn clone(&self) -> (event: SelectEvent)
        ensures
            event == *self,
    {
        match self {
            SelectEvent::Success { sender_thread, selected_index } => SelectEvent::Success {
                sender_thread: sender_thread.clone(),
                selected_index: *selected_index,
            },
            SelectEvent::RecvError { selected_index } => SelectEvent::RecvError {
                selected_index: *selected_index,
            },
        }
    }
}

impl Clone for IpcSelectEvent {
    fn clone(&self) -> (event: IpcSelectEvent)
        ensures
            event == *self,
    {
        match self {
            IpcSelectEvent::MessageReceived(index, sender) => IpcSelectEvent::MessageReceived(
                *index,
                sender.clone(),
            ),
            IpcSelectEvent::ChannelClosed(index) => IpcSelectEvent::ChannelClosed(*index),
        }
    }
}

/// Copies a list of select events.
fn clone_select_events(events: &Vec<IpcSelectEvent>) -> (copy: Vec<IpcSelectEvent>)
    ensures
        copy@ == events@,
{
    let mut copy: Vec<IpcSelectEvent> = Vec::new();
    let mut i: usize = 0;
    while i < events.len()
        invariant
            i <= events@.len(),
            copy@ == events@.take(i as int),
        decreases events@.len() - i,
    {
        copy.push(events[i].clone());
        assert(events@.take(i as int).push(events@[i as int]) =~= events@.take(i + 1));
        i += 1;
    }
    assert(events@.take(events@.len() as int) =~= events@);
    copy
}

impl Clone for TivoEvent {
    fn clone(&self) -> (event: TivoEvent)
        ensures
            event@ == self@,
    {
        match self {
            TivoEvent::ChannelCreation => TivoEvent::ChannelCreation,
            TivoEvent::CrossbeamSender => TivoEvent::CrossbeamSender,
            TivoEvent::CrossbeamRecvSucc { sender_thread } => TivoEvent::CrossbeamRecvSucc {
                sender_thread: sender_thread.clone(),
            },
            TivoEvent::CrossbeamRecvErr(e) => TivoEvent::CrossbeamRecvErr(*e),
            TivoEvent::CrossbeamSelectReady { select_index } => TivoEvent::CrossbeamSelectReady {
                select_index: *select_index,
            },
            TivoEvent::CrossbeamSelect(event) => TivoEvent::CrossbeamSelect(event.clone()),
            TivoEvent::CrossbeamRecvTimeoutSucc {
                sender_thread,
            } => TivoEvent::CrossbeamRecvTimeoutSucc { sender_thread: sender_thread.clone() },
            TivoEvent::CrossbeamRecvTimeoutErr(e) => TivoEvent::CrossbeamRecvTimeoutErr(*e),
            TivoEvent::CrossbeamTryRecvSucc { sender_thread } => TivoEvent::CrossbeamTryRecvSucc {
                sender_thread: sender_thread.clone(),
            },
            TivoEvent::CrossbeamTryRecvErr(e) => TivoEvent::CrossbeamTryRecvErr(*e),
            TivoEvent::MpscRecvTimeoutSucc { sender_thread } => TivoEvent::MpscRecvTimeoutSucc {
                sender_thread: sender_thread.clone(),
            },
            TivoEvent::MpscRecvSucc { sender_thread } => TivoEvent::MpscRecvSucc {
                sender_thread: sender_thread.clone(),
            },
            TivoEvent::MpscRecvErr(e) => TivoEvent::MpscRecvErr(*e),
            TivoEvent::MpscSender => TivoEvent::MpscSender,
            TivoEvent::MpscTryRecvSucc { sender_thread } => TivoEvent::MpscTryRecvSucc {
                sender_thread: sender_thread.clone(),
            },
            TivoEvent::MpscTryRecvErr(e) => TivoEvent::MpscTryRecvErr(*e),
            TivoEvent::MpscRecvTimeoutErr(e) => TivoEvent::MpscRecvTimeoutErr(*e),
            TivoEvent::IpcRecvSucc { sender_thread } => TivoEvent::IpcRecvSucc {
                sender_thread: sender_thread.clone(),
            },
            TivoEvent::IpcError(e) => TivoEvent::IpcError(*e),
            TivoEvent::IpcTryRecvErrorEmpty => TivoEvent::IpcTryRecvErrorEmpty,
            TivoEvent::IpcTryRecvIpcError(e) => TivoEvent::IpcTryRecvIpcError(*e),
            TivoEvent::IpcSender => TivoEvent::IpcSender,
            TivoEvent::IpcSelectAdd(index) => TivoEvent::IpcSelectAdd(*index),
            TivoEvent::IpcSelect { select_events } => TivoEvent::IpcSelect {
                select_events: clone_select_events(select_events),
            },
            TivoEvent::ThreadInitialized(id) => TivoEvent::ThreadInitialized(id.clone()),
        }
    }
}

/// A single entry of a thread's log. The event is what replay needs. The rest describes the
/// channel, so that replay can check that it looks at the right one.
#[derive(Debug, PartialEq, Eq)]
pub struct RecordEntry {
    /// The event and all information needed to replay it.
    pub event: TivoEvent,
    pub channel_variant: ChannelVariant,
    /// The channel for which this entry was recorded.
    pub chan_id: DetChannelId,
    pub message_type: String,
}

/// Mathematical value of a `RecordEntry`.
pub struct EntryView {
    pub event: TivoEventView,
    pub channel_variant: ChannelVariant,
    pub chan_id: ChannelIdView,
    pub message_type: Seq<char>,
}

impl View for RecordEntry {
    type V = EntryView;

    open spec fn view(&self) -> EntryView {
        EntryView {
            event: self.event@,
            channel_variant: self.channel_variant,
            chan_id: self.chan_id@,
            message_type: self.message_type@,
        }
    }
}

impl Clone for RecordEntry {
    fn clone(&self) -> (entry: RecordEntry)
        ensures
            entry@ == self@,
    {
        RecordEntry {
            event: self.event.clone(),
            channel_variant: self.channel_variant,
            chan_id: self.chan_id.clone(),
            message_type: self.message_type.clone(),
        }
    }
}

/// Describes a channel in the entries of the log.
#[derive(Debug)]
pub struct RecordMetadata {
    pub message_type: String,
    pub channel_variant: ChannelVariant,
    /// Both ends of a channel share the same id.
    pub id: DetChannelId,
}

/// Mathematical value of a `RecordMetadata`.
pub struct MetadataView {
    pub message_type: Seq<char>,
    pub channel_variant: ChannelVariant,
    pub id: ChannelIdView,
}

impl View for RecordMetadata {
    type V = MetadataView;

    open spec fn view(&self) -> MetadataView {
        MetadataView {
            message_type: self.message_type@,
            channel_variant: self.channel_variant,
            id: self.id@,
        }
    }
}

impl Clone for RecordMetadata {
    fn clone(&self) -> (metadata: RecordMetadata)
        ensures
            metadata@ == self@,
    {
        RecordMetadata {
            message_type: self.message_type.clone(),
            channel_variant: self.channel_variant,
            id: self.id.clone(),
        }
    }
}

impl RecordMetadata {
    pub fn new(message_type: String, flavor: ChannelVariant, id: DetChannelId) -> (metadata:
        RecordMetadata)
        ensures
            metadata == (RecordMetadata { message_type, channel_variant: flavor, id }),
    {
        RecordMetadata { message_type, channel_variant: flavor, id }
    }
}

/// The entry that records `event` on the channel described by `metadata`.
pub open spec fn entry_of(event: TivoEventView, metadata: MetadataView) -> EntryView {
    EntryView {
        event,
        channel_variant: metadata.channel_variant,
        chan_id: metadata.id,
        message_type: metadata.message_type,
    }
}

/// Why `entry` cannot have been recorded on the channel described by `metadata`, if so.
pub open spec fn channel_mismatch(entry: EntryView, metadata: MetadataView) -> Option<
    DesyncErrorView,
> {
    if entry.channel_variant != metadata.channel_variant {
        Some(
            DesyncErrorView::ChannelVariantMismatch(
                entry.channel_variant,
                metadata.channel_variant,
            ),
        )
    } else if entry.chan_id != metadata.id {
        Some(DesyncErrorView::ChannelMismatch(entry.chan_id, metadata.id))
    } else {
        None
    }
}

/// What an event tells of a receive: the sender of its message, or the event itself if it records an
/// error. Nothing for events of other operations.
pub open spec fn outcome_of(event: TivoEventView) -> Option<Result<Seq<u32>, TivoEventView>> {
    match event {
        TivoEventView::CrossbeamRecvSucc { sender_thread } => Some(Ok(sender_thread)),
        TivoEventView::CrossbeamTryRecvSucc { sender_thread } => Some(Ok(sender_thread)),
        TivoEventView::CrossbeamRecvTimeoutSucc { sender_thread } => Some(Ok(sender_thread)),
        TivoEventView::MpscRecvSucc { sender_thread } => Some(Ok(sender_thread)),
        TivoEventView::MpscTryRecvSucc { sender_thread } => Some(Ok(sender_thread)),
        TivoEventView::MpscRecvTimeoutSucc { sender_thread } => Some(Ok(sender_thread)),
        TivoEventView::IpcRecvSucc { sender_thread } => Some(Ok(sender_thread)),
        TivoEventView::CrossbeamSelect(SelectEventView::Success { sender_thread, .. }) => Some(
            Ok(sender_thread),
        ),
        TivoEventView::CrossbeamRecvErr(_)
        | TivoEventView::CrossbeamTryRecvErr(_)
        | TivoEventView::CrossbeamRecvTimeoutErr(_)
        | TivoEventView::MpscRecvErr(_)
        | TivoEventView::MpscTryRecvErr(_)
        | TivoEventView::MpscRecvTimeoutErr(_)
        | TivoEventView::IpcError(_)
        | TivoEventView::IpcTryRecvErrorEmpty
        | TivoEventView::IpcTryRecvIpcError(_)
        | TivoEventView::CrossbeamSelect(SelectEventView::RecvError { .. }) => Some(Err(event)),
        _ => None,
    }
}

/// `r` fails with the error `mismatch`, or succeeds where there is none.
pub open spec fn reports(r: Result<(), DesyncError>, mismatch: Option<DesyncErrorView>) -> bool {
    match r {
        Ok(_) => mismatch is None,
        Err(e) => mismatch == Some(e@),
    }
}

impl RecordEntry {
    pub fn new(
        event: TivoEvent,
        channel_variant: ChannelVariant,
        chan_id: DetChannelId,
        message_type: String,
    ) -> (entry: RecordEntry)
        ensures
            entry == (RecordEntry { event, channel_variant, chan_id, message_type }),
    {
        RecordEntry { event, channel_variant, chan_id, message_type }
    }

    /// Checks that this entry was recorded on the channel described by `metadata`. The type name
    /// is not compared: channels with the same id carry the same type.
    pub fn check_mismatch(&self, metadata: &RecordMetadata) -> (r: Result<(), DesyncError>)
        ensures
            reports(r, channel_mismatch(self@, metadata@)),
    {
        if self.channel_variant != metadata.channel_variant {
            return Err(
                DesyncError::ChannelVariantMismatch(self.channel_variant, metadata.channel_variant),
            );
        }
        if self.chan_id != metadata.id {
            return Err(DesyncError::ChannelMismatch(self.chan_id.clone(), metadata.id.clone()));
        }
        Ok(())
    }
}

} // verus!
