//! The events that record the receives of the different kinds of channels.

use vstd::prelude::*;
use crate::detthread::DetThreadId;
use crate::error::{
    MpscRecvErrorDef, MpscRecvTimeoutErrorDef, MpscTryRecvErrorDef, RecvErrorDef,
    RecvTimeoutErrorDef, TryRecvErrorDef,
};
use crate::recordlog::{IpcErrorVariants, TivoEvent, TivoEventView};
use crate::rr::{RecvRecordReplay, Replayed};

verus! {

/// A blocking receive on a crossbeam channel.
impl RecvRecordReplay for RecvErrorDef {
    open spec fn succ_event(sender: Seq<u32>) -> TivoEventView {
        TivoEventView::CrossbeamRecvSucc { sender_thread: sender }
    }

    open spec fn err_event(self) -> TivoEventView {
        TivoEventView::CrossbeamRecvErr(self)
    }

    open spec fn decode(event: TivoEventView) -> Option<Result<Seq<u32>, RecvErrorDef>> {
        match event {
            TivoEventView::CrossbeamRecvSucc { sender_thread } => Some(Ok(sender_thread)),
            TivoEventView::CrossbeamRecvErr(e) => Some(Err(e)),
            _ => None,
        }
    }

    proof fn lemma_decode(sender: Seq<u32>, error: RecvErrorDef) {
    }

    proof fn lemma_outcome(event: TivoEventView) {
    }

    fn recorded_event_succ(dtid: DetThreadId) -> (event: TivoEvent) {
        TivoEvent::CrossbeamRecvSucc { sender_thread: dtid }
    }

    fn recorded_event_err(&self) -> (event: TivoEvent) {
        TivoEvent::CrossbeamRecvErr(*self)
    }

    fn is_recorded_event(event: &TivoEvent) -> (found: bool) {
        match event {
            TivoEvent::CrossbeamRecvSucc { sender_thread: _ } => true,
            TivoEvent::CrossbeamRecvErr(_) => true,
            _ => false,
        }
    }

    fn replay_recorded_event(event: TivoEvent) -> (replayed: Replayed<RecvErrorDef>) {
        match event {
            TivoEvent::CrossbeamRecvSucc { sender_thread } => Replayed::Message(sender_thread),
            TivoEvent::CrossbeamRecvErr(e) => Replayed::Failure(e),
            _ => vstd::pervasive::unreached(),
        }
    }
}

/// A receive on a crossbeam channel that does not wait.
impl RecvRecordReplay for TryRecvErrorDef {
    open spec fn succ_event(sender: Seq<u32>) -> TivoEventView {
        TivoEventView::CrossbeamTryRecvSucc { sender_thread: sender }
    }

    open spec fn err_event(self) -> TivoEventView {
        TivoEventView::CrossbeamTryRecvErr(self)
    }

    open spec fn decode(event: TivoEventView) -> Option<Result<Seq<u32>, TryRecvErrorDef>> {
        match event {
            TivoEventView::CrossbeamTryRecvSucc { sender_thread } => Some(Ok(sender_thread)),
            TivoEventView::CrossbeamTryRecvErr(e) => Some(Err(e)),
            _ => None,
        }
    }

    proof fn lemma_decode(sender: Seq<u32>, error: TryRecvErrorDef) {
    }

    proof fn lemma_outcome(event: TivoEventView) {
    }

    fn recorded_event_succ(dtid: DetThreadId) -> (event: TivoEvent) {
        TivoEvent::CrossbeamTryRecvSucc { sender_thread: dtid }
    }

    fn recorded_event_err(&self) -> (event: TivoEvent) {
        TivoEvent::CrossbeamTryRecvErr(*self)
    }

    fn is_recorded_event(event: &TivoEvent) -> (found: bool) {
        match event {
            TivoEvent::CrossbeamTryRecvSucc { sender_thread: _ } => true,
            TivoEvent::CrossbeamTryRecvErr(_) => true,
            _ => false,
        }
    }

    fn replay_recorded_event(event: TivoEvent) -> (replayed: Replayed<TryRecvErrorDef>) {
        match event {
            TivoEvent::CrossbeamTryRecvSucc { sender_thread } => Replayed::Message(sender_thread),
            TivoEvent::CrossbeamTryRecvErr(e) => Replayed::Failure(e),
            _ => vstd::pervasive::unreached(),
        }
    }
}

/// A receive on a crossbeam channel with a timeout.
impl RecvRecordReplay for RecvTimeoutErrorDef {
    open spec fn succ_event(sender: Seq<u32>) -> TivoEventView {
        TivoEventView::CrossbeamRecvTimeoutSucc { sender_thread: sender }
    }

    open spec fn err_event(self) -> TivoEventView {
        TivoEventView::CrossbeamRecvTimeoutErr(self)
    }

    open spec fn decode(event: TivoEventView) -> Option<Result<Seq<u32>, RecvTimeoutErrorDef>> {
        match event {
            TivoEventView::CrossbeamRecvTimeoutSucc { sender_thread } => Some(Ok(sender_thread)),
            TivoEventView::CrossbeamRecvTimeoutErr(e) => Some(Err(e)),
            _ => None,
        }
    }

    proof fn lemma_decode(sender: Seq<u32>, error: RecvTimeoutErrorDef) {
    }

    proof fn lemma_outcome(event: TivoEventView) {
    }

    fn recorded_event_succ(dtid: DetThreadId) -> (event: TivoEvent) {
        TivoEvent::CrossbeamRecvTimeoutSucc { sender_thread: dtid }
    }

    fn recorded_event_err(&self) -> (event: TivoEvent) {
        TivoEvent::CrossbeamRecvTimeoutErr(*self)
    }

    fn is_recorded_event(event: &TivoEvent) -> (found: bool) {
        match event {
            TivoEvent::CrossbeamRecvTimeoutSucc { sender_thread: _ } => true,
            TivoEvent::CrossbeamRecvTimeoutErr(_) => true,
            _ => false,
        }
    }

    fn replay_recorded_event(event: TivoEvent) -> (replayed: Replayed<RecvTimeoutErrorDef>) {
        match event {
            TivoEvent::CrossbeamRecvTimeoutSucc { sender_thread } => Replayed::Message(sender_thread),
            TivoEvent::CrossbeamRecvTimeoutErr(e) => Replayed::Failure(e),
            _ => vstd::pervasive::unreached(),
        }
    }
}

/// A blocking receive on a standard library channel.
impl RecvRecordReplay for MpscRecvErrorDef {
    open spec fn succ_event(sender: Seq<u32>) -> TivoEventView {
        TivoEventView::MpscRecvSucc { sender_thread: sender }
    }

    open spec fn err_event(self) -> TivoEventView {
        TivoEventView::MpscRecvErr(self)
    }

    open spec fn decode(event: TivoEventView) -> Option<Result<Seq<u32>, MpscRecvErrorDef>> {
        match event {
            TivoEventView::MpscRecvSucc { sender_thread } => Some(Ok(sender_thread)),
            TivoEventView::MpscRecvErr(e) => Some(Err(e)),
            _ => None,
        }
    }

    proof fn lemma_decode(sender: Seq<u32>, error: MpscRecvErrorDef) {
    }

    proof fn lemma_outcome(event: TivoEventView) {
    }

    fn recorded_event_succ(dtid: DetThreadId) -> (event: TivoEvent) {
        TivoEvent::MpscRecvSucc { sender_thread: dtid }
    }

    fn recorded_event_err(&self) -> (event: TivoEvent) {
        TivoEvent::MpscRecvErr(*self)
    }

    fn is_recorded_event(event: &TivoEvent) -> (found: bool) {
        match event {
            TivoEvent::MpscRecvSucc { sender_thread: _ } => true,
            TivoEvent::MpscRecvErr(_) => true,
            _ => false,
        }
    }

    fn replay_recorded_event(event: TivoEvent) -> (replayed: Replayed<MpscRecvErrorDef>) {
        match event {
            TivoEvent::MpscRecvSucc { sender_thread } => Replayed::Message(sender_thread),
            TivoEvent::MpscRecvErr(e) => Replayed::Failure(e),
            _ => vstd::pervasive::unreached(),
        }
    }
}

/// A receive on a standard library channel that does not wait.
impl RecvRecordReplay for MpscTryRecvErrorDef {
    open spec fn succ_event(sender: Seq<u32>) -> TivoEventView {
        TivoEventView::MpscTryRecvSucc { sender_thread: sender }
    }

    open spec fn err_event(self) -> TivoEventView {
        TivoEventView::MpscTryRecvErr(self)
    }

    open spec fn decode(event: TivoEventView) -> Option<Result<Seq<u32>, MpscTryRecvErrorDef>> {
        match event {
            TivoEventView::MpscTryRecvSucc { sender_thread } => Some(Ok(sender_thread)),
            TivoEventView::MpscTryRecvErr(e) => Some(Err(e)),
            _ => None,
        }
    }

    proof fn lemma_decode(sender: Seq<u32>, error: MpscTryRecvErrorDef) {
    }

    proof fn lemma_outcome(event: TivoEventView) {
    }

    fn recorded_event_succ(dtid: DetThreadId) -> (event: TivoEvent) {
        TivoEvent::MpscTryRecvSucc { sender_thread: dtid }
    }

    fn recorded_event_err(&self) -> (event: TivoEvent) {
        TivoEvent::MpscTryRecvErr(*self)
    }

    fn is_recorded_event(event: &TivoEvent) -> (found: bool) {
        match event {
            TivoEvent::MpscTryRecvSucc { sender_thread: _ } => true,
            TivoEvent::MpscTryRecvErr(_) => true,
            _ => false,
        }
    }

    fn replay_recorded_event(event: TivoEvent) -> (replayed: Replayed<MpscTryRecvErrorDef>) {
        match event {
            TivoEvent::MpscTryRecvSucc { sender_thread } => Replayed::Message(sender_thread),
            TivoEvent::MpscTryRecvErr(e) => Replayed::Failure(e),
            _ => vstd::pervasive::unreached(),
        }
    }
}

/// A receive on a standard library channel with a timeout.
impl RecvRecordReplay for MpscRecvTimeoutErrorDef {
    open spec fn succ_event(sender: Seq<u32>) -> TivoEventView {
        TivoEventView::MpscRecvTimeoutSucc { sender_thread: sender }
    }

    open spec fn err_event(self) -> TivoEventView {
        TivoEventView::MpscRecvTimeoutErr(self)
    }

    open spec fn decode(event: TivoEventView) -> Option<Result<Seq<u32>, MpscRecvTimeoutErrorDef>> {
        match event {
            TivoEventView::MpscRecvTimeoutSucc { sender_thread } => Some(Ok(sender_thread)),
            TivoEventView::MpscRecvTimeoutErr(e) => Some(Err(e)),
            _ => None,
        }
    }

    proof fn lemma_decode(sender: Seq<u32>, error: MpscRecvTimeoutErrorDef) {
    }

    proof fn lemma_outcome(event: TivoEventView) {
    }

    fn recorded_event_succ(dtid: DetThreadId) -> (event: TivoEvent) {
        TivoEvent::MpscRecvTimeoutSucc { sender_thread: dtid }
    }

    fn recorded_event_err(&self) -> (event: TivoEvent) {
        TivoEvent::MpscRecvTimeoutErr(*self)
    }

    fn is_recorded_event(event: &TivoEvent) -> (found: bool) {
        match event {
            TivoEvent::MpscRecvTimeoutSucc { sender_thread: _ } => true,
            TivoEvent::MpscRecvTimeoutErr(_) => true,
            _ => false,
        }
    }

    fn replay_recorded_event(event: TivoEvent) -> (replayed: Replayed<MpscRecvTimeoutErrorDef>) {
        match event {
            TivoEvent::MpscRecvTimeoutSucc { sender_thread } => Replayed::Message(sender_thread),
            TivoEvent::MpscRecvTimeoutErr(e) => Replayed::Failure(e),
            _ => vstd::pervasive::unreached(),
        }
    }
}

/// A blocking receive on an inter-process channel.
impl RecvRecordReplay for IpcErrorVariants {
    open spec fn succ_event(sender: Seq<u32>) -> TivoEventView {
        TivoEventView::IpcRecvSucc { sender_thread: sender }
    }

    open spec fn err_event(self) -> TivoEventView {
        TivoEventView::IpcError(self)
    }

    open spec fn decode(event: TivoEventView) -> Option<Result<Seq<u32>, IpcErrorVariants>> {
        match event {
            TivoEventView::IpcRecvSucc { sender_thread } => Some(Ok(sender_thread)),
            TivoEventView::IpcError(e) => Some(Err(e)),
            _ => None,
        }
    }

    proof fn lemma_decode(sender: Seq<u32>, error: IpcErrorVariants) {
    }

    proof fn lemma_outcome(event: TivoEventView) {
    }

    fn recorded_event_succ(dtid: DetThreadId) -> (event: TivoEvent) {
        TivoEvent::IpcRecvSucc { sender_thread: dtid }
    }

    fn recorded_event_err(&self) -> (event: TivoEvent) {
        TivoEvent::IpcError(*self)
    }

    fn is_recorded_event(event: &TivoEvent) -> (found: bool) {
        match event {
            TivoEvent::IpcRecvSucc { sender_thread: _ } => true,
            TivoEvent::IpcError(_) => true,
            _ => false,
        }
    }

    fn replay_recorded_event(event: TivoEvent) -> (replayed: Replayed<IpcErrorVariants>) {
        match event {
            TivoEvent::IpcRecvSucc { sender_thread } => Replayed::Message(sender_thread),
            TivoEvent::IpcError(e) => Replayed::Failure(e),
            _ => vstd::pervasive::unreached(),
        }
    }
}

/// Error of a receive on an inter-process channel that does not wait.
#[derive(Debug, Clone, Copy, PartialEq, Eq, Structural)]
pub enum IpcTryRecvError {
    Empty,
    IpcError(IpcErrorVariants),
}

/// A receive on an inter-process channel that does not wait. A message is logged as one of a
/// blocking receive is.
impl RecvRecordReplay for IpcTryRecvError {
    open spec fn succ_event(sender: Seq<u32>) -> TivoEventView {
        TivoEventView::IpcRecvSucc { sender_thread: sender }
    }

    open spec fn err_event(self) -> TivoEventView {
        match self {
            IpcTryRecvError::Empty => TivoEventView::IpcTryRecvErrorEmpty,
            IpcTryRecvError::IpcError(e) => TivoEventView::IpcTryRecvIpcError(e),
        }
    }

    open spec fn decode(event: TivoEventView) -> Option<Result<Seq<u32>, IpcTryRecvError>> {
        match event {
            TivoEventView::IpcRecvSucc { sender_thread } => Some(Ok(sender_thread)),
            TivoEventView::IpcTryRecvErrorEmpty => Some(Err(IpcTryRecvError::Empty)),
            TivoEventView::IpcTryRecvIpcError(e) => Some(Err(IpcTryRecvError::IpcError(e))),
            _ => None,
        }
    }

    proof fn lemma_decode(sender: Seq<u32>, error: IpcTryRecvError) {
    }

    proof fn lemma_outcome(event: TivoEventView) {
    }

    fn recorded_event_succ(dtid: DetThreadId) -> (event: TivoEvent) {
        TivoEvent::IpcRecvSucc { sender_thread: dtid }
    }

    fn recorded_event_err(&self) -> (event: TivoEvent) {
        match self {
            IpcTryRecvError::Empty => TivoEvent::IpcTryRecvErrorEmpty,
            IpcTryRecvError::IpcError(e) => TivoEvent::IpcTryRecvIpcError(*e),
        }
    }

    fn is_recorded_event(event: &TivoEvent) -> (found: bool) {
        match event {
            TivoEvent::IpcRecvSucc { sender_thread: _ } => true,
            TivoEvent::IpcTryRecvErrorEmpty => true,
            TivoEvent::IpcTryRecvIpcError(_) => true,
            _ => false,
        }
    }

    fn replay_recorded_event(event: TivoEvent) -> (replayed: Replayed<IpcTryRecvError>) {
        match event {
            TivoEvent::IpcRecvSucc { sender_thread } => Replayed::Message(sender_thread),
            TivoEvent::IpcTryRecvErrorEmpty => Replayed::Failure(IpcTryRecvError::Empty),
            TivoEvent::IpcTryRecvIpcError(e) => Replayed::Failure(IpcTryRecvError::IpcError(e)),
            _ => vstd::pervasive::unreached(),
        }
    }
}

} // verus!
