//! Modes, and the logs of all threads.

use rr_channel::crossbeam::{unbounded, Receiver, Sender};
use rr_channel::desync::DesyncMode;
use rr_channel::detthread::{DetThreadId, ThreadState};
use rr_channel::error::{
    DesyncError, MpscRecvTimeoutErrorDef, RecvErrorRR, RecvTimeoutErrorDef,
};
use rr_channel::global_log::{take_global_memory_recorder, FlushError, GlobalRecorder};
use rr_channel::mode::{parse_desync_mode, parse_rr_mode};
use rr_channel::recordlog::{ChannelVariant, RecordEntry, RecordMetadata, TivoEvent};
use rr_channel::rr::DetChannelId;
use rr_channel::tivo::{rr_channel_creation_event, DoneError};
use rr_channel::{EventRecorder, RRMode, Tivo};
use std::collections::VecDeque;

fn metadata(channel: u32) -> RecordMetadata {
    RecordMetadata::new(
        "u8".to_string(),
        ChannelVariant::CbUnbounded,
        DetChannelId::from_raw(DetThreadId::new(), channel),
    )
}

fn entry(channel: u32) -> RecordEntry {
    RecordEntry::new(
        TivoEvent::CrossbeamSender,
        ChannelVariant::CbUnbounded,
        DetChannelId::from_raw(DetThreadId::new(), channel),
        "u8".to_string(),
    )
}

fn recording_thread(mode: RRMode, recorder: EventRecorder) -> ThreadState {
    ThreadState::new(mode, DesyncMode::Panic, recorder)
}

#[test]
fn modes_are_parsed_in_any_case() {
    assert_eq!(parse_rr_mode("record"), Ok(RRMode::Record));
    assert_eq!(parse_rr_mode("Record"), Ok(RRMode::Record));
    assert_eq!(parse_rr_mode("REPLAY"), Ok(RRMode::Replay));
    assert_eq!(parse_rr_mode("noRR"), Ok(RRMode::NoRR));
    assert_eq!(parse_rr_mode("Rewind"), Err("rewind".to_string()));
    assert_eq!(parse_rr_mode("RECORD "), Err("record ".to_string()));
    assert_eq!(parse_rr_mode(""), Err("".to_string()));
}

#[test]
fn desync_mode_is_panic_unless_told_otherwise() {
    let parse = |name: &str| parse_desync_mode(Some(name.to_string()));
    assert_eq!(parse("panic"), DesyncMode::Panic);
    assert_eq!(parse("keep_going"), DesyncMode::KeepGoing);
    assert_eq!(parse("Keep_Going"), DesyncMode::Panic);
    assert_eq!(parse_desync_mode(None), DesyncMode::Panic);
}

#[test]
fn written_entries_are_collected_in_order() {
    let mut recorder = GlobalRecorder::init_no_file();
    let mut one = recorder.start_thread(DetThreadId::from(&[1]));
    let mut two = recorder.start_thread(DetThreadId::from(&[2]));
    for channel in 1..4 {
        one.write_event_to_record(TivoEvent::CrossbeamSender, &metadata(channel))
            .unwrap();
    }
    two.write_event_to_record(TivoEvent::CrossbeamSender, &metadata(9))
        .unwrap();
    assert_eq!(one.event_number(), 3);
    // The entries outlive the thread.
    drop(one);
    let mut slot = Some(recorder);
    let entries = take_global_memory_recorder(&mut slot);
    assert!(slot.is_none());
    assert_eq!(entries.len(), 2);
    let expected = VecDeque::from(vec![entry(1), entry(2), entry(3)]);
    assert_eq!(entries.get(&DetThreadId::from(&[1])), Some(&expected));
    let expected = VecDeque::from(vec![entry(9)]);
    assert_eq!(entries.get(&DetThreadId::from(&[2])), Some(&expected));
}

#[test]
fn what_was_written_is_what_is_fetched() {
    let mut recorder = GlobalRecorder::init_no_file();
    let id = DetThreadId::from(&[3]);
    let mut log = recorder.start_thread(id.clone());
    for channel in [5, 4] {
        log.write_event_to_record(TivoEvent::CrossbeamSender, &metadata(channel))
            .unwrap();
    }
    let mut entries = recorder.get_all_entries();
    let mut replay = EventRecorder::replaying(entries.remove(&id).unwrap());
    assert_eq!(replay.get_log_entry(), Ok(entry(5)));
    assert_eq!(replay.next_record_entry(), Some(entry(4)));
    assert_eq!(replay.get_log_entry(), Err(DesyncError::NoEntryInLog));
    assert_eq!(replay.next_record_entry(), None);
    assert_eq!(replay.event_number(), 4);
}

#[test]
fn logs_are_flushed_to_a_file_only() {
    let recorder = GlobalRecorder::init_no_file();
    assert_eq!(recorder.flush().err(), Some(FlushError::NoPath));
    let recorder = GlobalRecorder::init("run.log");
    assert_eq!(recorder.flush().err(), Some(FlushError::NoEntries));
    let mut recorder = GlobalRecorder::init("run.log");
    let _log = recorder.start_thread(DetThreadId::new());
    let flush = recorder.flush().ok().unwrap();
    assert_eq!(flush.path, "run.log");
    assert_eq!(
        flush.entries.get(&DetThreadId::new()),
        Some(&VecDeque::new())
    );
}

fn tivo(thread: &mut ThreadState) -> Tivo {
    Tivo::init_tivo_thread_root_with_router(thread)
}

#[test]
fn end_of_a_run() {
    let mut thread = recording_thread(RRMode::NoRR, EventRecorder::get_global_recorder());
    let mut slot = None;
    // Nothing to write unless the run was recorded.
    let done = tivo(&mut thread).execution_done(Ok(RRMode::NoRR), &mut slot);
    assert!(matches!(done, Ok(None)));
    let run = || {
        tivo(&mut recording_thread(
            RRMode::NoRR,
            EventRecorder::get_global_recorder(),
        ))
    };
    let done = run().execution_done(Ok(RRMode::Replay), &mut slot);
    assert!(matches!(done, Ok(None)));
    let done = run().execution_done(Err("no mode".to_string()), &mut slot);
    assert!(matches!(done, Err(DoneError::Mode(m)) if m == "no mode"));
    let done = run().execution_done(Ok(RRMode::Record), &mut slot);
    assert!(matches!(done, Err(DoneError::NoRecorder)));
    let mut slot = Some(GlobalRecorder::init("run.log"));
    let done = run().execution_done(Ok(RRMode::Record), &mut slot);
    assert!(matches!(done, Err(DoneError::Flush(FlushError::NoEntries))));
    assert!(slot.is_none());
    let mut recorder = GlobalRecorder::init("run.log");
    let _log = recorder.start_thread(DetThreadId::new());
    let mut slot = Some(recorder);
    match run().execution_done(Ok(RRMode::Record), &mut slot) {
        Ok(Some(flush)) => assert_eq!(flush.path, "run.log"),
        _ => panic!("nothing to write"),
    }
}

#[test]
fn created_channels_are_checked() {
    let id = DetChannelId::from_raw(DetThreadId::new(), 1);
    let creation = |channel: u32| RecordEntry {
        event: TivoEvent::ChannelCreation,
        ..entry(channel)
    };
    let create = |mode: RRMode, log: &mut EventRecorder| {
        rr_channel_creation_event(mode, &id, log, ChannelVariant::CbUnbounded, "u8".to_string())
    };
    let mut recorder = GlobalRecorder::init_no_file();
    let mut log = recorder.start_thread(DetThreadId::new());
    assert_eq!(create(RRMode::Record, &mut log), Ok(()));
    let entries = recorder.get_all_entries();
    let expected = VecDeque::from(vec![creation(1)]);
    assert_eq!(entries.get(&DetThreadId::new()), Some(&expected));

    let mut log =
        EventRecorder::replaying(VecDeque::from(vec![creation(1), creation(2), entry(1)]));
    assert_eq!(create(RRMode::NoRR, &mut log), Ok(()));
    assert_eq!(create(RRMode::Replay, &mut log), Ok(()));
    assert_eq!(
        create(RRMode::Replay, &mut log),
        Err(DesyncError::ChannelMismatch(
            DetChannelId::from_raw(DetThreadId::new(), 2),
            id.clone()
        ))
    );
    assert_eq!(
        create(RRMode::Replay, &mut log),
        Err(DesyncError::EventMismatch(
            TivoEvent::CrossbeamSender,
            TivoEvent::ChannelCreation
        ))
    );
    assert_eq!(create(RRMode::Replay, &mut log), Err(DesyncError::NoEntryInLog));
    assert_eq!(
        create(RRMode::Record, &mut EventRecorder::get_global_recorder()),
        Err(DesyncError::CannotWriteEventToLog(creation(1)))
    );
}

#[test]
fn receive_errors_are_converted() {
    assert_eq!(
        RecvErrorRR::from(RecvTimeoutErrorDef::Timeout),
        RecvErrorRR::Timeout
    );
    assert_eq!(
        RecvErrorRR::from(RecvTimeoutErrorDef::Disconnected),
        RecvErrorRR::Disconnected
    );
    assert_eq!(
        RecvErrorRR::from(MpscRecvTimeoutErrorDef::Timeout),
        RecvErrorRR::Timeout
    );
    assert_eq!(
        RecvErrorRR::from(MpscRecvTimeoutErrorDef::Disconnected),
        RecvErrorRR::Disconnected
    );
    assert_eq!(
        DesyncError::from(RecvErrorRR::Disconnected),
        DesyncError::Disconnected
    );
    assert_eq!(
        DesyncError::from(RecvErrorRR::Timeout),
        DesyncError::Timeout(None)
    );
}

#[test]
fn init_unbounded() {
    let mut thread = recording_thread(RRMode::NoRR, EventRecorder::get_global_recorder());
    Tivo::init_tivo_thread_root_test(&mut thread);
    let (_s, _r): (Sender<i32>, Receiver<i32>) = unbounded(&mut thread, "i32".to_string()).unwrap();
    assert_eq!(thread.next_channel_id, 2);
}
