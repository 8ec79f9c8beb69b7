//! The events of the keyed log that record the receives of the different kinds of channels.

use vstd::prelude::*;
use crate::error::{
    MpscRecvErrorDef, MpscRecvTimeoutErrorDef, MpscTryRecvErrorDef, RecvErrorDef,
    RecvTimeoutErrorDef, TryRecvErrorDef,
};
use crate::keyed::flow::{KeyedReplayed, RecordReplayRecv};
use crate::keyed::record_replay::{IpcDummyError, Recorded, RecordedView};
use crate::keyed::thread::MaybeId;

verus! {

/// A blocking receive on a crossbeam channel.
impl RecordReplayRecv for RecvErrorDef {
    open spec fn succ_event(sender: Option<Seq<u32>>) -> RecordedView {
        RecordedView::RecvSucc { sender_thread: sender }
    }

    open spec fn err_event(self) -> RecordedView {
        RecordedView::RecvErr(self)
    }

    open spec fn decode(event: RecordedView) -> Option<Result<Option<Seq<u32>>, RecvErrorDef>> {
        match event {
            RecordedView::RecvSucc { sender_thread } => Some(Ok(sender_thread)),
            RecordedView::RecvErr(e) => Some(Err(e)),
            _ => None,
        }
    }

    proof fn lemma_decode(sender: Option<Seq<u32>>, error: RecvErrorDef) {
    }

    fn recorded_succ(sender_thread: MaybeId) -> (event: Recorded) {
        Recorded::RecvSucc { sender_thread }
    }

    fn recorded_err(&self) -> (event: Recorded) {
        Recorded::RecvErr(*self)
    }

    fn expected_recorded_events(event: Recorded) -> (r: Result<
        KeyedReplayed<RecvErrorDef>,
        Recorded,
    >) {
        match event {
            Recorded::RecvSucc { sender_thread } => Ok(KeyedReplayed::Message(sender_thread)),
            Recorded::RecvErr(e) => Ok(KeyedReplayed::Failure(e)),
            event => Err(event),
        }
    }
}

/// A receive on a crossbeam channel that does not wait.
impl RecordReplayRecv for TryRecvErrorDef {
    open spec fn succ_event(sender: Option<Seq<u32>>) -> RecordedView {
        RecordedView::TryRecvSucc { sender_thread: sender }
    }

    open spec fn err_event(self) -> RecordedView {
        RecordedView::TryRecvErr(self)
    }

    open spec fn decode(event: RecordedView) -> Option<Result<Option<Seq<u32>>, TryRecvErrorDef>> {
        match event {
            RecordedView::TryRecvSucc { sender_thread } => Some(Ok(sender_thread)),
            RecordedView::TryRecvErr(e) => Some(Err(e)),
            _ => None,
        }
    }

    proof fn lemma_decode(sender: Option<Seq<u32>>, error: TryRecvErrorDef) {
    }

    fn recorded_succ(sender_thread: MaybeId) -> (event: Recorded) {
        Recorded::TryRecvSucc { sender_thread }
    }

    fn recorded_err(&self) -> (event: Recorded) {
        Recorded::TryRecvErr(*self)
    }

    fn expected_recorded_events(event: Recorded) -> (r: Result<
        KeyedReplayed<TryRecvErrorDef>,
        Recorded,
    >) {
        match event {
            Recorded::TryRecvSucc { sender_thread } => Ok(KeyedReplayed::Message(sender_thread)),
            Recorded::TryRecvErr(e) => Ok(KeyedReplayed::Failure(e)),
            event => Err(event),
        }
    }
}

/// A receive on a crossbeam channel with a timeout.
impl RecordReplayRecv for RecvTimeoutErrorDef {
    open spec fn succ_event(sender: Option<Seq<u32>>) -> RecordedView {
        RecordedView::RecvTimeoutSucc { sender_thread: sender }
    }

    open spec fn err_event(self) -> RecordedView {
        RecordedView::RecvTimeoutErr(self)
    }

    open spec fn decode(event: RecordedView) -> Option<Result<Option<Seq<u32>>, RecvTimeoutErrorDef>> {
        match event {
            RecordedView::RecvTimeoutSucc { sender_thread } => Some(Ok(sender_thread)),
            RecordedView::RecvTimeoutErr(e) => Some(Err(e)),
            _ => None,
        }
    }

    proof fn lemma_decode(sender: Option<Seq<u32>>, error: RecvTimeoutErrorDef) {
    }

    fn recorded_succ(sender_thread: MaybeId) -> (event: Recorded) {
        Recorded::RecvTimeoutSucc { sender_thread }
    }

    fn recorded_err(&self) -> (event: Recorded) {
        Recorded::RecvTimeoutErr(*self)
    }

    fn expected_recorded_events(event: Recorded) -> (r: Result<
        KeyedReplayed<RecvTimeoutErrorDef>,
        Recorded,
    >) {
        match event {
            Recorded::RecvTimeoutSucc { sender_thread } => Ok(KeyedReplayed::Message(sender_thread)),
            Recorded::RecvTimeoutErr(e) => Ok(KeyedReplayed::Failure(e)),
            event => Err(event),
        }
    }
}

/// A blocking receive on a standard library channel.
impl RecordReplayRecv for MpscRecvErrorDef {
    open spec fn succ_event(sender: Option<Seq<u32>>) -> RecordedView {
        RecordedView::MpscRecvSucc { sender_thread: sender }
    }

    open spec fn err_event(self) -> RecordedView {
        RecordedView::MpscRecvErr(self)
    }

    open spec fn decode(event: RecordedView) -> Option<Result<Option<Seq<u32>>, MpscRecvErrorDef>> {
        match event {
            RecordedView::MpscRecvSucc { sender_thread } => Some(Ok(sender_thread)),
            RecordedView::MpscRecvErr(e) => Some(Err(e)),
            _ => None,
        }
    }

    proof fn lemma_decode(sender: Option<Seq<u32>>, error: MpscRecvErrorDef) {
    }

    fn recorded_succ(sender_thread: MaybeId) -> (event: Recorded) {
        Recorded::MpscRecvSucc { sender_thread }
    }

    fn recorded_err(&self) -> (event: Recorded) {
        Recorded::MpscRecvErr(*self)
    }

    fn expected_recorded_events(event: Recorded) -> (r: Result<
        KeyedReplayed<MpscRecvErrorDef>,
        Recorded,
    >) {
        match event {
            Recorded::MpscRecvSucc { sender_thread } => Ok(KeyedReplayed::Message(sender_thread)),
            Recorded::MpscRecvErr(e) => Ok(KeyedReplayed::Failure(e)),
            event => Err(event),
        }
    }
}

/// A receive on a standard library channel that does not wait.
impl RecordReplayRecv for MpscTryRecvErrorDef {
    open spec fn succ_event(sender: Option<Seq<u32>>) -> RecordedView {
        RecordedView::MpscTryRecvSucc { sender_thread: sender }
    }

    open spec fn err_event(self) -> RecordedView {
        RecordedView::MpscTryRecvErr(self)
    }

    open spec fn decode(event: RecordedView) -> Option<Result<Option<Seq<u32>>, MpscTryRecvErrorDef>> {
        match event {
            RecordedView::MpscTryRecvSucc { sender_thread } => Some(Ok(sender_thread)),
            RecordedView::MpscTryRecvErr(e) => Some(Err(e)),
            _ => None,
        }
    }

    proof fn lemma_decode(sender: Option<Seq<u32>>, error: MpscTryRecvErrorDef) {
    }

    fn recorded_succ(sender_thread: MaybeId) -> (event: Recorded) {
        Recorded::MpscTryRecvSucc { sender_thread }
    }

    fn recorded_err(&self) -> (event: Recorded) {
        Recorded::MpscTryRecvErr(*self)
    }

    fn expected_recorded_events(event: Recorded) -> (r: Result<
        KeyedReplayed<MpscTryRecvErrorDef>,
        Recorded,
    >) {
        match event {
            Recorded::MpscTryRecvSucc { sender_thread } => Ok(KeyedReplayed::Message(sender_thread)),
            Recorded::MpscTryRecvErr(e) => Ok(KeyedReplayed::Failure(e)),
            event => Err(event),
        }
    }
}

/// A receive on a standard library channel with a timeout.
impl RecordReplayRecv for MpscRecvTimeoutErrorDef {
    open spec fn succ_event(sender: Option<Seq<u32>>) -> RecordedView {
        RecordedView::MpscRecvTimeoutSucc { sender_thread: sender }
    }

    open spec fn err_event(self) -> RecordedView {
        RecordedView::MpscRecvTimeoutErr(self)
    }

    open spec fn decode(event: RecordedView) -> Option<Result<Option<Seq<u32>>, MpscRecvTimeoutErrorDef>> {
        match event {
            RecordedView::MpscRecvTimeoutSucc { sender_thread } => Some(Ok(sender_thread)),
            RecordedView::MpscRecvTimeoutErr(e) => Some(Err(e)),
            _ => None,
        }
    }

    proof fn lemma_decode(sender: Option<Seq<u32>>, error: MpscRecvTimeoutErrorDef) {
    }

    fn recorded_succ(sender_thread: MaybeId) -> (event: Recorded) {
        Recorded::MpscRecvTimeoutSucc { sender_thread }
    }

    fn recorded_err(&self) -> (event: Recorded) {
        Recorded::MpscRecvTimeoutErr(*self)
    }

    fn expected_recorded_events(event: Recorded) -> (r: Result<
        KeyedReplayed<MpscRecvTimeoutErrorDef>,
        Recorded,
    >) {
        match event {
            Recorded::MpscRecvTimeoutSucc { sender_thread } => Ok(KeyedReplayed::Message(sender_thread)),
            Recorded::MpscRecvTimeoutErr(e) => Ok(KeyedReplayed::Failure(e)),
            event => Err(event),
        }
    }
}

/// Any receive on an inter-process channel. Its error is not logged.
impl RecordReplayRecv for IpcDummyError {
    open spec fn succ_event(sender: Option<Seq<u32>>) -> RecordedView {
        RecordedView::IpcRecvSucc { sender_thread: sender }
    }

    open spec fn err_event(self) -> RecordedView {
        RecordedView::IpcRecvErr(self)
    }

    open spec fn decode(event: RecordedView) -> Option<Result<Option<Seq<u32>>, IpcDummyError>> {
        match event {
            RecordedView::IpcRecvSucc { sender_thread } => Some(Ok(sender_thread)),
            RecordedView::IpcRecvErr(e) => Some(Err(e)),
            _ => None,
        }
    }

    proof fn lemma_decode(sender: Option<Seq<u32>>, error: IpcDummyError) {
    }

    fn recorded_succ(sender_thread: MaybeId) -> (event: Recorded) {
        Recorded::IpcRecvSucc { sender_thread }
    }

    fn recorded_err(&self) -> (event: Recorded) {
        Recorded::IpcRecvErr(*self)
    }

    fn expected_recorded_events(event: Recorded) -> (r: Result<
        KeyedReplayed<IpcDummyError>,
        Recorded,
    >) {
        match event {
            Recorded::IpcRecvSucc { sender_thread } => Ok(KeyedReplayed::Message(sender_thread)),
            Recorded::IpcRecvErr(e) => Ok(KeyedReplayed::Failure(e)),
            event => Err(event),
        }
    }
}

} // verus!
