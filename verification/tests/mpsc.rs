//! Channels of the standard library in the different modes.

use rr_channel::desync::{DesyncMode, Step};
use rr_channel::detthread::{DetThreadId, ThreadState};
use rr_channel::error::{
    DesyncError, MpscRecvErrorDef, MpscRecvTimeoutErrorDef, MpscTryRecvErrorDef, SendError,
};
use rr_channel::global_log::{GlobalRecorder, GlobalReplayer};
use rr_channel::mpsc::{channel, sync_channel, Receiver, Sender};
use rr_channel::recordlog::{ChannelVariant, RecordEntry, TivoEvent};
use rr_channel::rr::DetChannelId;
use rr_channel::send::SendStep;
use rr_channel::{EventRecorder, RRMode, Tivo};
use std::collections::VecDeque;
use std::time::Duration;

fn root(mode: RRMode, desync_mode: DesyncMode, recorder: EventRecorder) -> ThreadState {
    let mut thread = ThreadState::new(mode, desync_mode, recorder);
    Tivo::init_tivo_thread_root_test(&mut thread);
    thread
}

fn no_rr() -> ThreadState {
    root(
        RRMode::NoRR,
        DesyncMode::Panic,
        EventRecorder::get_global_recorder(),
    )
}

fn i32_name() -> String {
    "i32".to_string()
}

fn sent<T>(step: SendStep<T, SendError<T>>) -> Result<(), SendError<T>> {
    match step {
        SendStep::Done(r) => r,
        SendStep::Sleep(_) => panic!("asleep"),
        SendStep::Panic(e) => panic!("{:?}", e),
    }
}

fn done<V>(step: Step<V>) -> V {
    match step {
        Step::Done(v) => v,
        Step::Sleep => panic!("asleep"),
        Step::Panic(e) => panic!("{:?}", e),
    }
}

fn entry(event: TivoEvent) -> RecordEntry {
    RecordEntry::new(
        event,
        ChannelVariant::MpscUnbounded,
        DetChannelId::from_raw(DetThreadId::new(), 1),
        i32_name(),
    )
}

fn recv_program(thread: &mut ThreadState) {
    let (s, mut r): (Sender<i32>, Receiver<i32>) = channel(thread, i32_name()).unwrap();
    sent(s.send(thread, 1)).unwrap();
    sent(s.send(thread, 2)).unwrap();
    assert_eq!(done(r.recv(thread)), Ok(1));
    assert_eq!(done(r.recv(thread)), Ok(2));
    drop(s);
    assert_eq!(done(r.recv(thread)), Err(MpscRecvErrorDef {}));
}

fn try_recv_program(thread: &mut ThreadState) {
    let (s, mut r): (Sender<i32>, Receiver<i32>) = channel(thread, i32_name()).unwrap();
    assert_eq!(done(r.try_recv(thread)), Err(MpscTryRecvErrorDef::Empty));
    sent(s.send(thread, 5)).unwrap();
    drop(s);
    assert_eq!(done(r.try_recv(thread)), Ok(5));
    assert_eq!(done(r.try_recv(thread)), Err(MpscTryRecvErrorDef::Disconnected));
}

fn recv_timeout_program(thread: &mut ThreadState) {
    let (s, mut r): (Sender<i32>, Receiver<i32>) = sync_channel(thread, 3, i32_name()).unwrap();
    assert_eq!(
        done(r.recv_timeout(thread, Duration::from_micros(10))),
        Err(MpscRecvTimeoutErrorDef::Timeout)
    );
    sent(s.send(thread, 5)).unwrap();
    drop(s);
    assert_eq!(done(r.recv_timeout(thread, Duration::from_millis(100))), Ok(5));
    assert_eq!(
        done(r.recv_timeout(thread, Duration::from_millis(100))),
        Err(MpscRecvTimeoutErrorDef::Disconnected)
    );
}

/// Runs a program as it is, records it, and replays it from its own log.
fn in_all_modes(program: fn(&mut ThreadState)) {
    program(&mut no_rr());
    let mut recorder = GlobalRecorder::init_no_file();
    let log = recorder.start_thread(DetThreadId::new());
    program(&mut root(RRMode::Record, DesyncMode::Panic, log));
    let mut replayer = GlobalReplayer::init_from(recorder.get_all_entries());
    let entries = replayer.take_entry(&DetThreadId::new());
    assert!(entries.len() > 0);
    let mut thread = root(
        RRMode::Replay,
        DesyncMode::Panic,
        EventRecorder::replaying(entries),
    );
    program(&mut thread);
    assert_eq!(thread.recorder.entries_left(), 0);
}

#[test]
fn mpsc_recv_program() {
    in_all_modes(recv_program);
}

#[test]
fn mpsc_try_recv_program() {
    in_all_modes(try_recv_program);
}

#[test]
fn mpsc_recv_timeout_program() {
    in_all_modes(recv_timeout_program);
}

#[test]
fn mpsc_record() {
    let mut recorder = GlobalRecorder::init_no_file();
    let log = recorder.start_thread(DetThreadId::new());
    let mut thread = root(RRMode::Record, DesyncMode::Panic, log);
    recv_program(&mut thread);
    let sender_thread = DetThreadId::new();
    let mut expected = VecDeque::new();
    expected.push_back(entry(TivoEvent::ChannelCreation));
    expected.push_back(entry(TivoEvent::MpscSender));
    expected.push_back(entry(TivoEvent::MpscSender));
    expected.push_back(entry(TivoEvent::MpscRecvSucc {
        sender_thread: sender_thread.clone(),
    }));
    expected.push_back(entry(TivoEvent::MpscRecvSucc { sender_thread }));
    expected.push_back(entry(TivoEvent::MpscRecvErr(MpscRecvErrorDef {})));
    let entries = recorder.get_all_entries();
    assert_eq!(entries.get(&DetThreadId::new()), Some(&expected));
}

#[test]
fn mpsc_failed_send_returns_the_message() {
    let mut thread = no_rr();
    let (s, r): (Sender<i32>, Receiver<i32>) = channel(&mut thread, i32_name()).unwrap();
    drop(r);
    assert_eq!(sent(s.send(&mut thread, 12)), Err(SendError(12)));
    let (s, r): (Sender<i32>, Receiver<i32>) = sync_channel(&mut thread, 1, i32_name()).unwrap();
    drop(r);
    assert_eq!(sent(s.send(&mut thread, 13)), Err(SendError(13)));
}

#[test]
fn mpsc_clones_share_the_channel() {
    let mut thread = no_rr();
    let (s, mut r): (Sender<i32>, Receiver<i32>) = channel(&mut thread, i32_name()).unwrap();
    let copy = s.clone();
    drop(s);
    assert_eq!(copy.metadata.id, r.metadata.id);
    sent(copy.send(&mut thread, 4)).unwrap();
    assert_eq!(done(r.recv(&mut thread)), Ok(4));
    let (s, mut r): (Sender<i32>, Receiver<i32>) = sync_channel(&mut thread, 1, i32_name()).unwrap();
    assert_eq!(s.metadata.channel_variant, ChannelVariant::MpscBounded);
    let copy = s.clone();
    drop(s);
    sent(copy.send(&mut thread, 5)).unwrap();
    assert_eq!(done(r.recv(&mut thread)), Ok(5));
}

#[test]
fn mpsc_sleep_and_wakeup() {
    let mut thread = root(
        RRMode::Replay,
        DesyncMode::KeepGoing,
        EventRecorder::replaying(VecDeque::new()),
    );
    let (s, mut r): (Sender<i32>, Receiver<i32>) = channel(&mut thread, i32_name()).unwrap();
    assert!(matches!(r.recv(&mut thread), Step::Sleep));
    assert!(matches!(s.send(&mut thread, 6), SendStep::Sleep(6)));
    assert_eq!(sent(s.send_after_wakeup(&mut thread, 6)), Ok(()));
    assert_eq!(done(r.recv_after_wakeup(&mut thread)), Ok(6));
    assert_eq!(
        done(r.try_recv_after_wakeup(&mut thread)),
        Err(MpscTryRecvErrorDef::Empty)
    );
    assert_eq!(
        done(r.recv_timeout_after_wakeup(&mut thread, Duration::from_millis(1))),
        Err(MpscRecvTimeoutErrorDef::Timeout)
    );
}

#[test]
fn mpsc_kept_messages_come_first_after_a_desynchronization() {
    let sender_thread = DetThreadId::from(&[1]);
    let mut log = VecDeque::new();
    log.push_back(entry(TivoEvent::MpscRecvSucc { sender_thread }));
    let mut thread = root(
        RRMode::Replay,
        DesyncMode::KeepGoing,
        EventRecorder::replaying(log),
    );
    let (s, mut r): (Sender<i32>, Receiver<i32>) = channel(&mut thread, i32_name()).unwrap();
    s.underlying_send(DetThreadId::from(&[2]), 20).unwrap();
    // Nothing comes from the expected thread: what was kept is delivered.
    assert_eq!(done(r.recv(&mut thread)), Ok(20));
    assert!(thread.desynced);
}

#[test]
fn mpsc_replay_recv() {
    let mut thread = no_rr();
    let (s, mut r): (Sender<i32>, Receiver<i32>) = channel(&mut thread, i32_name()).unwrap();
    s.underlying_send(DetThreadId::from(&[1]), 10).unwrap();
    s.underlying_send(DetThreadId::from(&[2]), 20).unwrap();
    assert_eq!(r.replay_recv(&DetThreadId::from(&[2])), Ok(20));
    assert_eq!(r.replay_recv(&DetThreadId::from(&[1])), Ok(10));
    drop(s);
    assert_eq!(
        r.replay_recv(&DetThreadId::from(&[1])),
        Err(DesyncError::Disconnected)
    );
}
