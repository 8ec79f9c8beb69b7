//! Errors seen while recording and replaying.

use vstd::prelude::*;
use crate::recordlog::{ChannelVariant, EntryView, RecordEntry, TivoEvent, TivoEventView};
use crate::rr::{ChannelIdView, DetChannelId};

verus! {

/// Whether no message came in time or the channel is disconnected. Abstracts over the receive
/// errors of the different kinds of channels.
#[derive(Debug, Clone, Copy, PartialEq, Eq, Structural)]
pub enum RecvErrorRR {
    Timeout,
    Disconnected,
}

/// Error of a crossbeam receive with a timeout.
#[derive(Debug, Clone, Copy, PartialEq, Eq, Structural)]
pub enum RecvTimeoutErrorDef {
    Timeout,
    Disconnected,
}

/// Error of a crossbeam receive that does not wait.
#[derive(Debug, Clone, Copy, PartialEq, Eq, Structural)]
pub enum TryRecvErrorDef {
    Empty,
    Disconnected,
}

/// Error of a blocking crossbeam receive: the channel is empty and disconnected.
#[derive(Debug, Clone, Copy, PartialEq, Eq, Structural)]
pub struct RecvErrorDef {}

/// Error of a standard library receive that does not wait.
#[derive(Debug, Clone, Copy, PartialEq, Eq, Structural)]
pub enum MpscTryRecvErrorDef {
    Empty,
    Disconnected,
}

/// Error of a standard library receive with a timeout.
#[derive(Debug, Clone, Copy, PartialEq, Eq, Structural)]
pub enum MpscRecvTimeoutErrorDef {
    Timeout,
    Disconnected,
}

/// Error of a blocking standard library receive: the channel is empty and disconnected.
#[derive(Debug, Clone, Copy, PartialEq, Eq, Structural)]
pub struct MpscRecvErrorDef {}

/// A message that could not be sent.
#[derive(Debug, PartialEq, Eq)]
pub struct SendError<T>(pub T);

impl From<RecvTimeoutErrorDef> for RecvErrorRR {
    fn from(e: RecvTimeoutErrorDef) -> (r: RecvErrorRR) {
        match e {
            RecvTimeoutErrorDef::Timeout => RecvErrorRR::Timeout,
            RecvTimeoutErrorDef::Disconnected => RecvErrorRR::Disconnected,
        }
    }
}

impl vstd::std_specs::convert::FromSpecImpl<RecvTimeoutErrorDef> for RecvErrorRR {
    open spec fn obeys_from_spec() -> bool {
        true
    }

    open spec fn from_spec(e: RecvTimeoutErrorDef) -> RecvErrorRR {
        match e {
            RecvTimeoutErrorDef::Timeout => RecvErrorRR::Timeout,
            RecvTimeoutErrorDef::Disconnected => RecvErrorRR::Disconnected,
        }
    }
}

impl From<MpscRecvTimeoutErrorDef> for RecvErrorRR {
    fn from(e: MpscRecvTimeoutErrorDef) -> (r: RecvErrorRR) {
        match e {
            MpscRecvTimeoutErrorDef::Timeout => RecvErrorRR::Timeout,
            MpscRecvTimeoutErrorDef::Disconnected => RecvErrorRR::Disconnected,
        }
    }
}

impl vstd::std_specs::convert::FromSpecImpl<MpscRecvTimeoutErrorDef> for RecvErrorRR {
    open spec fn obeys_from_spec() -> bool {
        true
    }

    open spec fn from_spec(e: MpscRecvTimeoutErrorDef) -> RecvErrorRR {
        match e {
            MpscRecvTimeoutErrorDef::Timeout => RecvErrorRR::Timeout,
            MpscRecvTimeoutErrorDef::Disconnected => RecvErrorRR::Disconnected,
        }
    }
}

/// Every reason why a replay may fail to follow its log.
#[derive(Debug, PartialEq, Eq)]
pub enum DesyncError {
    /// The thread ran off the end of its log.
    NoEntryInLog,
    /// Channel variants do not match: logged variant, current variant.
    ChannelVariantMismatch(ChannelVariant, ChannelVariant),
    /// Channel ids do not match: logged channel, current channel.
    ChannelMismatch(DetChannelId, DetChannelId),
    /// Events do not match: logged event, current event.
    EventMismatch(TivoEvent, TivoEvent),
    /// A receiver was expected for a select operation but its entry is missing.
    MissingReceiver(u64),
    /// An entry already exists at the index of a receiver set.
    SelectExistingEntry(u64),
    /// A receiver set expected the first index but found the second.
    SelectIndexMismatch(u64, u64),
    /// The program is already known to be desynchronized.
    Desynchronized,
    /// Expected a channel close message, but saw an actual value.
    ChannelClosedExpected,
    /// The receiver disconnected.
    Disconnected,
    /// Expected a message, but the channel at this index was closed.
    ChannelClosedUnexpected(u64),
    /// Waited too long and no message of the named type came.
    Timeout(Option<String>),
    /// The thread was put to sleep at the end of its log and woken up by a desynchronization.
    DesynchronizedWakeup,
    /// The entry could not be written: the log is no longer being collected.
    CannotWriteEventToLog(RecordEntry),
}

/// Mathematical value of a `DesyncError`.
pub enum DesyncErrorView {
    NoEntryInLog,
    ChannelVariantMismatch(ChannelVariant, ChannelVariant),
    ChannelMismatch(ChannelIdView, ChannelIdView),
    EventMismatch(TivoEventView, TivoEventView),
    MissingReceiver(u64),
    SelectExistingEntry(u64),
    SelectIndexMismatch(u64, u64),
    Desynchronized,
    ChannelClosedExpected,
    Disconnected,
    ChannelClosedUnexpected(u64),
    Timeout(Option<Seq<char>>),
    DesynchronizedWakeup,
    CannotWriteEventToLog(EntryView),
}

impl View for DesyncError {
    type V = DesyncErrorView;

    open spec fn view(&self) -> DesyncErrorView {
        match *self {
            DesyncError::NoEntryInLog => DesyncErrorView::NoEntryInLog,
            DesyncError::ChannelVariantMismatch(
                logged,
                actual,
            ) => DesyncErrorView::ChannelVariantMismatch(logged, actual),
            DesyncError::ChannelMismatch(logged, actual) => DesyncErrorView::ChannelMismatch(
                logged@,
                actual@,
            ),
            DesyncError::EventMismatch(logged, actual) => DesyncErrorView::EventMismatch(
                logged@,
                actual@,
            ),
            DesyncError::MissingReceiver(index) => DesyncErrorView::MissingReceiver(index),
            DesyncError::SelectExistingEntry(index) => DesyncErrorView::SelectExistingEntry(index),
            DesyncError::SelectIndexMismatch(
                expected,
                found,
            ) => DesyncErrorView::SelectIndexMismatch(expected, found),
            DesyncError::Desynchronized => DesyncErrorView::Desynchronized,
            DesyncError::ChannelClosedExpected => DesyncErrorView::ChannelClosedExpected,
            DesyncError::Disconnected => DesyncErrorView::Disconnected,
            DesyncError::ChannelClosedUnexpected(index) => DesyncErrorView::ChannelClosedUnexpected(
                index,
            ),
            DesyncError::Timeout(None) => DesyncErrorView::Timeout(None),
            DesyncError::Timeout(Some(message_type)) => DesyncErrorView::Timeout(Some(message_type@)),
            DesyncError::DesynchronizedWakeup => DesyncErrorView::DesynchronizedWakeup,
            DesyncError::CannotWriteEventToLog(entry) => DesyncErrorView::CannotWriteEventToLog(
                entry@,
            ),
        }
    }
}

impl From<RecvErrorRR> for DesyncError {
    fn from(e: RecvErrorRR) -> (r: DesyncError) {
        match e {
            RecvErrorRR::Disconnected => DesyncError::Disconnected,
            RecvErrorRR::Timeout => DesyncError::Timeout(None),
        }
    }
}

impl vstd::std_specs::convert::FromSpecImpl<RecvErrorRR> for DesyncError {
    open spec fn obeys_from_spec() -> bool {
        true
    }

    open spec fn from_spec(e: RecvErrorRR) -> DesyncError {
        match e {
            RecvErrorRR::Disconnected => DesyncError::Disconnected,
            RecvErrorRR::Timeout => DesyncError::Timeout(None),
        }
    }
}

/// The mathematical value of a receive error seen as a desynchronization.
pub open spec fn recv_error_view(e: RecvErrorRR) -> DesyncErrorView {
    match e {
        RecvErrorRR::Disconnected => DesyncErrorView::Disconnected,
        RecvErrorRR::Timeout => DesyncErrorView::Timeout(None),
    }
}

/// The mathematical value of a result whose error is a desynchronization.
pub open spec fn result_view<T>(r: Result<T, DesyncError>) -> Result<T, DesyncErrorView> {
    match r {
        Ok(v) => Ok(v),
        Err(e) => Err(e@),
    }
}

} // verus!
