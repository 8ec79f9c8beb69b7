//! Crossbeam channels in the different modes.

use rr_channel::crossbeam::{after, bounded, never, unbounded, Receiver, Sender};
use rr_channel::desync::{DesyncMode, Step};
use rr_channel::detthread::{initialize_new_thread, DetThreadId, ThreadState};
use rr_channel::error::{DesyncError, RecvErrorDef, RecvTimeoutErrorDef, SendError, TryRecvErrorDef};
use rr_channel::global_log::{GlobalRecorder, GlobalReplayer};
use rr_channel::recordlog::{ChannelVariant, RecordEntry, TivoEvent};
use rr_channel::rr::DetChannelId;
use rr_channel::send::SendStep;
use rr_channel::wire::{capacity_fits, MAX_CAPACITY};
use rr_channel::{EventRecorder, RRMode, Tivo};
use std::collections::VecDeque;
use std::time::Duration;

fn root(mode: RRMode, desync_mode: DesyncMode, recorder: EventRecorder) -> ThreadState {
    let mut thread = ThreadState::new(mode, desync_mode, recorder);
    Tivo::init_tivo_thread_root_test(&mut thread);
    thread
}

fn no_rr() -> ThreadState {
    root(
        RRMode::NoRR,
        DesyncMode::Panic,
        EventRecorder::get_global_recorder(),
    )
}

fn replaying(entries: VecDeque<RecordEntry>, desync_mode: DesyncMode) -> ThreadState {
    root(RRMode::Replay, desync_mode, EventRecorder::replaying(entries))
}

fn i32_name() -> String {
    "i32".to_string()
}

fn sent<T>(step: SendStep<T, SendError<T>>) -> Result<(), SendError<T>> {
    match step {
        SendStep::Done(r) => r,
        SendStep::Sleep(_) => panic!("asleep"),
        SendStep::Panic(e) => panic!("{:?}", e),
    }
}

fn done<V>(step: Step<V>) -> V {
    match step {
        Step::Done(v) => v,
        Step::Sleep => panic!("asleep"),
        Step::Panic(e) => panic!("{:?}", e),
    }
}

fn gave_up<V>(step: Step<V>) -> DesyncError {
    match step {
        Step::Panic(e) => e,
        _ => panic!("went on"),
    }
}

fn entry(event: TivoEvent, channel: u32) -> RecordEntry {
    RecordEntry::new(
        event,
        ChannelVariant::CbUnbounded,
        DetChannelId::from_raw(DetThreadId::new(), channel),
        i32_name(),
    )
}

/// Sends three messages to itself and receives them.
fn simple_program(thread: &mut ThreadState) -> Vec<i32> {
    let (s, mut r): (Sender<i32>, Receiver<i32>) = unbounded(thread, i32_name()).unwrap();
    for msg in [1, 3, 5] {
        sent(s.send(thread, msg)).unwrap();
    }
    (0..3).map(|_| done(r.recv(thread)).unwrap()).collect()
}

fn simple_program_manual_log() -> VecDeque<RecordEntry> {
    let mut log = VecDeque::new();
    log.push_back(entry(TivoEvent::ChannelCreation, 1));
    for _ in 0..3 {
        log.push_back(entry(TivoEvent::CrossbeamSender, 1));
    }
    for _ in 0..3 {
        let sender_thread = DetThreadId::new();
        log.push_back(entry(TivoEvent::CrossbeamRecvSucc { sender_thread }, 1));
    }
    log
}

#[test]
fn simple_program_record_test() {
    let mut recorder = GlobalRecorder::init_no_file();
    let log = recorder.start_thread(DetThreadId::new());
    let mut thread = root(RRMode::Record, DesyncMode::Panic, log);
    assert_eq!(simple_program(&mut thread), vec![1, 3, 5]);
    assert_eq!(thread.recorder.event_number(), 7);
    let mut entries = recorder.get_all_entries();
    assert_eq!(
        entries.remove(&DetThreadId::new()),
        Some(simple_program_manual_log())
    );
    assert!(entries.is_empty());
}

#[test]
fn creations_are_checked_where_they_are_logged() {
    // The log of another channel.
    let log = VecDeque::from(vec![entry(TivoEvent::ChannelCreation, 2)]);
    let mut thread = replaying(log, DesyncMode::Panic);
    let created: Result<(Sender<i32>, Receiver<i32>), _> = unbounded(&mut thread, i32_name());
    let id = |channel: u32| DetChannelId::from_raw(DetThreadId::new(), channel);
    assert_eq!(
        created.err(),
        Some(DesyncError::ChannelMismatch(id(2), id(1)))
    );
    // A log that tells of no creations is left as it is.
    let log = VecDeque::from(vec![entry(TivoEvent::CrossbeamSender, 1)]);
    let mut thread = replaying(log, DesyncMode::Panic);
    let created: Result<(Sender<i32>, Receiver<i32>), _> = unbounded(&mut thread, i32_name());
    assert!(created.is_ok());
    assert_eq!(thread.recorder.entries_left(), 1);
    // There is no log to write to.
    let mut thread = root(
        RRMode::Record,
        DesyncMode::Panic,
        EventRecorder::get_global_recorder(),
    );
    let created: Result<Receiver<i32>, _> = never(&mut thread, i32_name());
    let unwritten = RecordEntry {
        channel_variant: ChannelVariant::CbNever,
        ..entry(TivoEvent::ChannelCreation, 1)
    };
    assert_eq!(
        created.err(),
        Some(DesyncError::CannotWriteEventToLog(unwritten))
    );
    thread.desynced = true;
    let created: Result<Receiver<i32>, _> = never(&mut thread, i32_name());
    assert!(created.is_ok());
}

/// Receives of different kinds, on two channels, over one log.
fn mixed_program(thread: &mut ThreadState) -> Vec<i32> {
    let (s1, mut r1): (Sender<i32>, Receiver<i32>) = unbounded(thread, i32_name()).unwrap();
    let (s2, mut r2): (Sender<i32>, Receiver<i32>) = unbounded(thread, i32_name()).unwrap();
    // The senders overtake each other while replaying.
    let order = match thread.mode {
        RRMode::Record => [(2, 20), (3, 30), (2, 21)],
        _ => [(3, 30), (2, 20), (2, 21)],
    };
    for (sender, msg) in order {
        s1.underlying_send(DetThreadId::from(&[sender]), msg).unwrap();
        s2.underlying_send(DetThreadId::from(&[sender]), msg + 100).unwrap();
    }
    vec![
        done(r1.recv(thread)).unwrap(),
        done(r2.try_recv(thread)).unwrap(),
        done(r2.recv_timeout(thread, Duration::from_millis(9))).unwrap(),
        done(r1.try_recv(thread)).unwrap(),
        done(r2.recv(thread)).unwrap(),
        done(r1.recv(thread)).unwrap(),
    ]
}

#[test]
fn replay_repeats_all_channels_of_a_thread() {
    let mut recorder = GlobalRecorder::init_no_file();
    let log = recorder.start_thread(DetThreadId::new());
    let mut thread = root(RRMode::Record, DesyncMode::Panic, log);
    let recorded = mixed_program(&mut thread);
    assert_eq!(recorded, vec![20, 120, 130, 30, 121, 21]);
    let mut entries = recorder.get_all_entries();
    let log = entries.remove(&DetThreadId::new()).unwrap();
    assert_eq!(log.len(), 8);
    assert_eq!(mixed_program(&mut replaying(log, DesyncMode::Panic)), recorded);
}

#[test]
fn simple_program_replay_test() {
    let mut thread = replaying(simple_program_manual_log(), DesyncMode::Panic);
    assert_eq!(simple_program(&mut thread), vec![1, 3, 5]);
    assert_eq!(thread.recorder.entries_left(), 0);
}

#[test]
fn simple_program_passthrough_test() {
    assert_eq!(simple_program(&mut no_rr()), vec![1, 3, 5]);
}

fn try_recv_program(thread: &mut ThreadState) {
    let (s, mut r): (Sender<i32>, Receiver<i32>) = unbounded(thread, i32_name()).unwrap();
    assert_eq!(done(r.try_recv(thread)), Err(TryRecvErrorDef::Empty));
    sent(s.send(thread, 5)).unwrap();
    drop(s);
    assert_eq!(done(r.try_recv(thread)), Ok(5));
    assert_eq!(done(r.try_recv(thread)), Err(TryRecvErrorDef::Disconnected));
}

fn recv_timeout_program(thread: &mut ThreadState) {
    let (s, mut r): (Sender<i32>, Receiver<i32>) = unbounded(thread, i32_name()).unwrap();
    assert_eq!(
        done(r.recv_timeout(thread, Duration::from_micros(10))),
        Err(RecvTimeoutErrorDef::Timeout)
    );
    sent(s.send(thread, 5)).unwrap();
    drop(s);
    assert_eq!(done(r.recv_timeout(thread, Duration::from_millis(100))), Ok(5));
    assert_eq!(
        done(r.recv_timeout(thread, Duration::from_millis(100))),
        Err(RecvTimeoutErrorDef::Disconnected)
    );
}

/// Records a program, and then replays it from its own log.
fn rr_test(program: fn(&mut ThreadState)) {
    let mut recorder = GlobalRecorder::init_no_file();
    let log = recorder.start_thread(DetThreadId::new());
    program(&mut root(RRMode::Record, DesyncMode::Panic, log));
    let mut replayer = GlobalReplayer::init_from(recorder.get_all_entries());
    let entries = replayer.take_entry(&DetThreadId::new());
    assert!(entries.len() > 0);
    let mut thread = replaying(entries, DesyncMode::Panic);
    program(&mut thread);
    assert_eq!(thread.recorder.entries_left(), 0);
}

#[test]
fn try_recv_program_test() {
    try_recv_program(&mut no_rr());
    rr_test(try_recv_program);
}

#[test]
fn recv_timeout_program_test() {
    recv_timeout_program(&mut no_rr());
    rr_test(recv_timeout_program);
}

#[test]
fn recorded_error_is_replayed_though_a_message_is_there() {
    let mut log = VecDeque::new();
    log.push_back(entry(TivoEvent::CrossbeamSender, 1));
    log.push_back(entry(TivoEvent::CrossbeamTryRecvErr(TryRecvErrorDef::Empty), 1));
    let mut thread = replaying(log, DesyncMode::Panic);
    let (s, mut r): (Sender<i32>, Receiver<i32>) = unbounded(&mut thread, i32_name()).unwrap();
    sent(s.send(&mut thread, 5)).unwrap();
    assert_eq!(done(r.try_recv(&mut thread)), Err(TryRecvErrorDef::Empty));
}

#[test]
fn messages_overtake_each_other_but_replay_follows_the_log() {
    let mut log = VecDeque::new();
    for sender in [2, 1, 2] {
        let sender_thread = DetThreadId::from(&[sender]);
        log.push_back(entry(TivoEvent::CrossbeamRecvSucc { sender_thread }, 1));
    }
    let mut thread = replaying(log, DesyncMode::Panic);
    let (s, mut r): (Sender<i32>, Receiver<i32>) = unbounded(&mut thread, i32_name()).unwrap();
    for (sender, msg) in [(1, 10), (2, 20), (2, 21)] {
        s.underlying_send(DetThreadId::from(&[sender]), msg).unwrap();
    }
    let got: Vec<i32> = (0..3).map(|_| done(r.recv(&mut thread)).unwrap()).collect();
    assert_eq!(got, vec![20, 10, 21]);
}

#[test]
fn end_of_log_puts_the_thread_to_sleep() {
    let mut thread = replaying(VecDeque::new(), DesyncMode::KeepGoing);
    let (s, mut r): (Sender<i32>, Receiver<i32>) = unbounded(&mut thread, i32_name()).unwrap();
    assert!(matches!(r.recv(&mut thread), Step::Sleep));
    assert!(matches!(s.send(&mut thread, 7), SendStep::Sleep(7)));
    assert!(!thread.desynced);
    // Woken up, the thread goes on without the log.
    assert_eq!(sent(s.send_after_wakeup(&mut thread, 7)), Ok(()));
    assert!(thread.desynced);
    assert_eq!(done(r.recv_after_wakeup(&mut thread)), Ok(7));
}

#[test]
fn wakeup_gives_up_in_panic_mode() {
    let mut thread = replaying(VecDeque::new(), DesyncMode::Panic);
    let (s, mut r): (Sender<i32>, Receiver<i32>) = unbounded(&mut thread, i32_name()).unwrap();
    assert_eq!(
        gave_up(r.try_recv_after_wakeup(&mut thread)),
        DesyncError::DesynchronizedWakeup
    );
    assert_eq!(
        gave_up(r.recv_timeout_after_wakeup(&mut thread, Duration::from_millis(1))),
        DesyncError::DesynchronizedWakeup
    );
    match s.send_after_wakeup(&mut thread, 1) {
        SendStep::Panic(e) => assert_eq!(e, DesyncError::DesynchronizedWakeup),
        _ => panic!("went on"),
    }
}

#[test]
fn mismatches_are_found() {
    let id = |channel: u32| DetChannelId::from_raw(DetThreadId::new(), channel);
    // Another event.
    let mut log = VecDeque::new();
    log.push_back(entry(TivoEvent::MpscSender, 1));
    let mut thread = replaying(log, DesyncMode::Panic);
    let (_s, mut r): (Sender<i32>, Receiver<i32>) = unbounded(&mut thread, i32_name()).unwrap();
    let expected = TivoEvent::CrossbeamRecvSucc { sender_thread: DetThreadId::new() };
    assert_eq!(
        gave_up(r.recv(&mut thread)),
        DesyncError::EventMismatch(TivoEvent::MpscSender, expected)
    );
    // Another channel.
    let mut log = VecDeque::new();
    log.push_back(entry(TivoEvent::CrossbeamRecvErr(RecvErrorDef {}), 9));
    let mut thread = replaying(log, DesyncMode::Panic);
    let (_s, mut r): (Sender<i32>, Receiver<i32>) = unbounded(&mut thread, i32_name()).unwrap();
    assert_eq!(
        gave_up(r.recv(&mut thread)),
        DesyncError::ChannelMismatch(id(9), id(1))
    );
    // Another kind of channel.
    let mut log = VecDeque::new();
    log.push_back(entry(TivoEvent::CrossbeamSender, 1));
    let mut thread = replaying(log, DesyncMode::Panic);
    let (s, _r): (Sender<i32>, Receiver<i32>) = bounded(&mut thread, 1, i32_name()).unwrap();
    match s.send(&mut thread, 1) {
        SendStep::Panic(e) => assert_eq!(
            e,
            DesyncError::ChannelVariantMismatch(
                ChannelVariant::CbUnbounded,
                ChannelVariant::CbBounded
            )
        ),
        _ => panic!("went on"),
    }
}

#[test]
fn missing_message_times_out_with_its_type() {
    let sender_thread = DetThreadId::from(&[4]);
    let mut log = VecDeque::new();
    log.push_back(entry(TivoEvent::CrossbeamRecvSucc { sender_thread }, 1));
    let mut thread = replaying(log, DesyncMode::Panic);
    let (s, mut r): (Sender<i32>, Receiver<i32>) = unbounded(&mut thread, i32_name()).unwrap();
    s.underlying_send(DetThreadId::from(&[5]), 50).unwrap();
    assert_eq!(
        gave_up(r.recv(&mut thread)),
        DesyncError::Timeout(Some(i32_name()))
    );
    // The message from the other thread is kept.
    assert!(r.buffered_value());
    assert_eq!(r.get_buffered_value(), Some(50));
    assert_eq!(r.get_buffered_value(), None);
}

#[test]
fn desynchronized_sends_are_refused_or_go_on() {
    let mut thread = replaying(VecDeque::new(), DesyncMode::KeepGoing);
    let (s, mut r): (Sender<i32>, Receiver<i32>) = unbounded(&mut thread, i32_name()).unwrap();
    thread.desynced = true;
    assert_eq!(sent(s.send(&mut thread, 3)), Ok(()));
    thread.desync_mode = DesyncMode::Panic;
    match s.send(&mut thread, 4) {
        SendStep::Panic(e) => assert_eq!(e, DesyncError::Desynchronized),
        _ => panic!("went on"),
    }
    thread.desync_mode = DesyncMode::KeepGoing;
    assert_eq!(done(r.recv_after_wakeup(&mut thread)), Ok(3));
    assert_eq!(
        done(r.try_recv_after_wakeup(&mut thread)),
        Err(TryRecvErrorDef::Empty)
    );
}

fn unwritten(event: TivoEvent) -> DesyncError {
    DesyncError::CannotWriteEventToLog(entry(event, 1))
}

#[test]
fn log_that_cannot_be_written() {
    let mut recorder = GlobalRecorder::init_no_file();
    let log = recorder.start_thread(DetThreadId::new());
    let mut thread = root(RRMode::Record, DesyncMode::Panic, log);
    let (s, mut r): (Sender<i32>, Receiver<i32>) = unbounded(&mut thread, i32_name()).unwrap();
    thread.recorder = EventRecorder::get_global_recorder();
    match s.send(&mut thread, 1) {
        SendStep::Panic(e) => assert_eq!(e, unwritten(TivoEvent::CrossbeamSender)),
        _ => panic!("went on"),
    }
    // The message was sent all the same.
    let sender_thread = DetThreadId::new();
    let received = unwritten(TivoEvent::CrossbeamRecvSucc { sender_thread });
    assert_eq!(gave_up(r.recv(&mut thread)), received);
    // A log whose receiving end is gone.
    let mut recorder = GlobalRecorder::init_no_file();
    let log = recorder.start_thread(DetThreadId::new());
    drop(recorder);
    let mut thread = root(RRMode::Record, DesyncMode::Panic, log);
    match s.send(&mut thread, 1) {
        SendStep::Panic(e) => assert_eq!(e, unwritten(TivoEvent::CrossbeamSender)),
        _ => panic!("went on"),
    }
}

#[test]
fn failed_send_returns_the_message() {
    let mut thread = no_rr();
    let (s, r): (Sender<i32>, Receiver<i32>) = unbounded(&mut thread, i32_name()).unwrap();
    drop(r);
    assert_eq!(sent(s.send(&mut thread, 12)), Err(SendError(12)));
}

#[test]
fn kinds_of_channels() {
    let mut thread = no_rr();
    let (s, mut r): (Sender<i32>, Receiver<i32>) = bounded(&mut thread, 1, i32_name()).unwrap();
    assert_eq!(r.metadata.channel_variant, ChannelVariant::CbBounded);
    assert_eq!(s.metadata.id, r.metadata.id);
    sent(s.send(&mut thread, 1)).unwrap();
    assert_eq!(done(r.recv(&mut thread)), Ok(1));

    let mut r: Receiver<i32> = never(&mut thread, i32_name()).unwrap();
    assert_eq!(r.metadata.channel_variant, ChannelVariant::CbNever);
    assert_eq!(r.metadata.id.channel_id, 2);
    assert_eq!(done(r.try_recv(&mut thread)), Err(TryRecvErrorDef::Empty));
    assert_eq!(
        done(r.recv_timeout(&mut thread, Duration::from_millis(1))),
        Err(RecvTimeoutErrorDef::Timeout)
    );

    let name = "std::time::Instant".to_string();
    let mut r = after(&mut thread, Duration::from_millis(5), name).unwrap();
    assert_eq!(r.metadata.channel_variant, ChannelVariant::CbAfter);
    assert_eq!(done(r.try_recv(&mut thread)), Err(TryRecvErrorDef::Empty));
    assert!(done(r.recv(&mut thread)).is_ok());

    let (s, mut r): (Sender<i32>, Receiver<i32>) = unbounded(&mut thread, i32_name()).unwrap();
    let copy = s.clone();
    drop(s);
    assert_eq!(copy.metadata.id, r.metadata.id);
    sent(copy.send(&mut thread, 8)).unwrap();
    assert_eq!(done(r.recv(&mut thread)), Ok(8));
    drop(copy);
    assert_eq!(done(r.recv(&mut thread)), Err(RecvErrorDef {}));
}

#[test]
fn poll_entry_keeps_messages() {
    let mut thread = no_rr();
    let (s, mut r): (Sender<i32>, Receiver<i32>) = unbounded(&mut thread, i32_name()).unwrap();
    let one = DetThreadId::from(&[1]);
    let two = DetThreadId::from(&[2]);
    s.underlying_send(two.clone(), 20).unwrap();
    s.underlying_send(one.clone(), 10).unwrap();
    assert_eq!(r.poll_entry(&thread, &one), Ok(true));
    assert_eq!(r.poll_entry(&thread, &two), Ok(true));
    assert_eq!(r.poll_entry(&thread, &DetThreadId::from(&[3])), Ok(false));
    assert_eq!(r.replay_recv(&thread, &one), Ok(10));
    assert_eq!(r.replay_recv(&thread, &two), Ok(20));
    drop(s);
    assert_eq!(r.poll_entry(&thread, &one), Err(DesyncError::Disconnected));
}

#[test]
fn foreign_thread_can_use_channels_that_are_not_recorded() {
    let mut thread = no_rr();
    let (s, mut r): (Sender<i32>, Receiver<i32>) = unbounded(&mut thread, i32_name()).unwrap();
    sent(s.send(&mut thread, 2)).unwrap();
    let mut foreign = ThreadState::new(
        RRMode::NoRR,
        DesyncMode::Panic,
        EventRecorder::get_global_recorder(),
    );
    assert_eq!(done(r.recv(&mut foreign)), Ok(2));
    initialize_new_thread(&mut foreign, DetThreadId::from(&[1]));
    sent(s.send(&mut foreign, 3)).unwrap();
    assert_eq!(done(r.recv(&mut foreign)), Ok(3));
}

#[test]
fn capacities_are_bounded_by_memory() {
    assert!(capacity_fits::<u8>(MAX_CAPACITY));
    assert!(capacity_fits::<u8>(MAX_CAPACITY + 1));
    assert!(!capacity_fits::<u8>(usize::MAX));
    // A slot takes the message, its alignment and a counter.
    let most = isize::MAX as usize / (4 + 4 + 16);
    assert!(capacity_fits::<u32>(most));
    assert!(!capacity_fits::<u32>(most + 1));
}
