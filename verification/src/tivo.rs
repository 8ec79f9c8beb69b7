//! The start and the end of a run, and the creation of its channels.

use vstd::prelude::*;
use crate::detthread::{ThreadState, ThreadView};
use crate::error::{result_view, DesyncError, DesyncErrorView};
use crate::global_log::{collected, Flush, FlushError, GlobalRecorder};
use crate::mode::RRMode;
use crate::recorder::{
    after_fetch, after_write, creation_is_next, write_gave, EventRecorder, LogView,
};
use crate::recordlog::{
    entry_of, ChannelVariant, MetadataView, RecordMetadata, TivoEvent, TivoEventView,
};
use crate::rr::{check_event_mismatch, event_mismatch, DetChannelId, RecordEventChecker};

verus! {

/// A run whose root thread is initialized.
pub struct Tivo {}

/// Why the end of a run failed.
pub enum DoneError {
    /// There is no valid mode, for this reason.
    Mode(String),
    /// The logs were taken before.
    NoRecorder,
    Flush(FlushError),
}

/// The end of a run. If it was recorded, all that its threads logged is to be written, and the
/// recorder is gone.
pub open spec fn done(
    mode: Result<RRMode, String>,
    before: Option<GlobalRecorder>,
    r: Result<Option<Flush>, DoneError>,
    after: Option<GlobalRecorder>,
) -> bool {
    match mode {
        Err(reason) => {
            &&& r == Err::<Option<Flush>, DoneError>(DoneError::Mode(reason))
            &&& after == before
        },
        Ok(RRMode::Record) => {
            &&& after is None
            &&& match before {
                None => r == Err::<Option<Flush>, DoneError>(DoneError::NoRecorder),
                Some(gr) => match r {
                    Ok(Some(flush)) => {
                        &&& gr.path == Some(flush.path)
                        &&& flush.entries.wf()
                        &&& collected(gr.recorder@, flush.entries@)
                        &&& flush.entries@.dom() != Set::<Seq<u32>>::empty()
                    },
                    Ok(None) => false,
                    Err(DoneError::Flush(FlushError::NoPath)) => gr.path is None,
                    Err(DoneError::Flush(FlushError::NoEntries)) => {
                        gr.path is Some && gr.recorder@.dom() == Set::<Seq<u32>>::empty()
                    },
                    Err(_) => false,
                },
            }
        },
        Ok(_) => {
            &&& r == Ok::<Option<Flush>, DoneError>(None)
            &&& after == before
        },
    }
}

impl Tivo {
    /// Starts a run: the thread becomes the root thread.
    pub fn init_tivo_thread_root_test(thread: &mut ThreadState) -> (tivo: Tivo)
        requires
            !old(thread)@.initialized,
        ensures
            final(thread)@ == (ThreadView { initialized: true, ..old(thread)@ }),
    {
        thread.initialized = true;
        Tivo {  }
    }

    /// Starts a run as `init_tivo_thread_root_test` does. The root thread has to create the router
    /// next, before any other thread is spawned, so that the router always has the same id.
    pub fn init_tivo_thread_root_with_router(thread: &mut ThreadState) -> (tivo: Tivo)
        requires
            !old(thread)@.initialized,
        ensures
            final(thread)@ == (ThreadView { initialized: true, ..old(thread)@ }),
    {
        Tivo::init_tivo_thread_root_test(thread)
    }

    /// Ends a run. If it was recorded, the result is what is to be written, and the recorder is
    /// gone. Fails without a valid mode, if the recorder is already gone, or if there is nothing to
    /// write or nowhere to write it.
    pub fn execution_done(
        self,
        mode: Result<RRMode, String>,
        recorder: &mut Option<GlobalRecorder>,
    ) -> (r: Result<Option<Flush>, DoneError>)
        requires
            *old(recorder) is Some ==> (*old(recorder))->0.recorder.wf(),
        ensures
            done(mode, *old(recorder), r, *final(recorder)),
    {
        match mode {
            Err(reason) => Err(DoneError::Mode(reason)),
            Ok(RRMode::Record) => match recorder.take() {
                None => Err(DoneError::NoRecorder),
                Some(gr) => match gr.flush() {
                    Ok(flush) => {
                        proof {
                            if flush.entries@.dom() == Set::<Seq<u32>>::empty() {
                                assert(flush.entries@ =~= Map::empty());
                            }
                        }
                        Ok(Some(flush))
                    },
                    Err(e) => Err(DoneError::Flush(e)),
                },
            },
            Ok(_) => Ok(None),
        }
    }
}

/// Expects the event that a channel was created.
pub struct ChannelCreation {}

impl RecordEventChecker for ChannelCreation {
    open spec fn accepts(&self, event: TivoEventView) -> bool {
        event == TivoEventView::ChannelCreation
    }

    open spec fn expected_event(&self) -> TivoEventView {
        TivoEventView::ChannelCreation
    }

    fn check_recorded_event(&self, re: &TivoEvent) -> (r: Result<(), TivoEvent>) {
        match re {
            TivoEvent::ChannelCreation => Ok(()),
            _ => Err(TivoEvent::ChannelCreation),
        }
    }
}

/// The creation of a channel in each of the modes.
pub open spec fn creation_relation(
    mode: RRMode,
    metadata: MetadataView,
    log: LogView,
    r: Result<(), DesyncErrorView>,
    log_after: LogView,
) -> bool {
    let event = TivoEventView::ChannelCreation;
    match mode {
        RRMode::Record => {
            &&& log_after == after_write(log, entry_of(event, metadata), r is Ok)
            &&& r matches Err(e) ==> e == DesyncErrorView::CannotWriteEventToLog(
                entry_of(event, metadata),
            )
            &&& write_gave(log, entry_of(event, metadata), r is Ok)
        },
        RRMode::Replay => {
            let logged = log.remaining[0];
            &&& log_after == after_fetch(log)
            &&& if log.remaining.len() == 0 {
                r == Err::<(), DesyncErrorView>(DesyncErrorView::NoEntryInLog)
            } else {
                match event_mismatch(logged.event == event, event, logged, metadata) {
                    Some(e) => r == Err::<(), DesyncErrorView>(e),
                    None => r is Ok,
                }
            }
        },
        RRMode::NoRR => r is Ok && log_after == log,
    }
}

/// Records that a channel was created, or checks it against the log. `message_type` names the type
/// of its messages.
pub fn rr_channel_creation_event(
    mode: RRMode,
    id: &DetChannelId,
    recorder: &mut EventRecorder,
    variant: ChannelVariant,
    message_type: String,
) -> (r: Result<(), DesyncError>)
    ensures
        creation_relation(
            mode,
            (MetadataView { message_type: message_type@, channel_variant: variant, id: id@ }),
            old(recorder)@,
            result_view(r),
            final(recorder)@,
        ),
{
    let metadata = RecordMetadata::new(message_type, variant, id.clone());
    match mode {
        RRMode::Record => recorder.write_event_to_record(TivoEvent::ChannelCreation, &metadata),
        RRMode::Replay => {
            match recorder.get_log_entry() {
                Ok(event) => check_event_mismatch(&ChannelCreation {  }, &event, &metadata),
                Err(e) => Err(e),
            }
        },
        RRMode::NoRR => Ok(()),
    }
}

/// The creation of a channel by a thread. While replaying, an entry is taken where the next one tells
/// of the creation of a channel, and only there. Once the program is desynchronized there is neither
/// an entry to be written nor one to be met.
pub open spec fn creation_step(
    thread: ThreadView,
    metadata: MetadataView,
    r: Result<(), DesyncErrorView>,
    after: ThreadView,
) -> bool {
    if thread.desynced || (thread.mode == RRMode::Replay && !creation_is_next(thread.log)) {
        r is Ok && after == thread
    } else {
        &&& after == thread.with_log(after.log)
        &&& creation_relation(thread.mode, metadata, thread.log, r, after.log)
    }
}

/// How the next channel of a thread is described in the log.
pub open spec fn next_metadata(
    thread: ThreadView,
    variant: ChannelVariant,
    message_type: Seq<char>,
) -> MetadataView {
    MetadataView {
        message_type,
        channel_variant: variant,
        id: DetChannelId::next_view(thread),
    }
}

/// A thread creates its next channel: the channel gets its id, and its creation is recorded, or
/// checked against the log. It succeeds where that does.
pub open spec fn created<V>(
    thread: ThreadView,
    variant: ChannelVariant,
    message_type: Seq<char>,
    r: Result<V, DesyncError>,
    after: ThreadView,
) -> bool {
    creation_step(
        DetChannelId::after_new(thread),
        next_metadata(thread, variant, message_type),
        match r {
            Ok(_) => Ok(()),
            Err(e) => Err(e@),
        },
        after,
    )
}

/// Records that the thread created the channel described by `metadata`, or checks it against the log
/// if that tells of it.
pub fn record_creation(thread: &mut ThreadState, metadata: &RecordMetadata) -> (r: Result<
    (),
    DesyncError,
>)
    ensures
        creation_step(old(thread)@, metadata@, result_view(r), final(thread)@),
{
    if thread.desynced {
        return Ok(());
    }
    if let RRMode::Replay = thread.mode {
        if !thread.recorder.creation_is_next() {
            return Ok(());
        }
    }
    let mode = thread.mode;
    rr_channel_creation_event(
        mode,
        &metadata.id,
        &mut thread.recorder,
        metadata.channel_variant,
        metadata.message_type.clone(),
    )
}

} // verus!
