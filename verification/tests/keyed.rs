//! Record and replay with a keyed log.

use rr_channel::desync::DesyncMode;
use rr_channel::error::{RecvErrorDef, RecvErrorRR, RecvTimeoutErrorDef, SendError, TryRecvErrorDef};
use rr_channel::keyed::channel::{after, bounded, never, unbounded, Flavor, Receiver, Sender};
use rr_channel::keyed::flow::{mark_program_as_desynced, recv_from_sender, Buffer, KeyedStep};
use rr_channel::keyed::record_replay::{
    get_det_id_desync, get_log_entry, get_log_entry_ret, get_log_entry_with, log, DesyncError,
    DetChannelId, FlavorMarker, LogEntry, Recorded, RecordedIndices, SelectEvent,
};
use rr_channel::keyed::select::{
    ready_with, select_with, Select, SelectedMessage, SelectedOperation,
};
use rr_channel::keyed::send::KeyedSendStep;
use rr_channel::keyed::thread::{
    get_and_inc_channel_id, get_det_id, get_event_id, get_forward_id, get_temp_det_id,
    in_forwarding, inc_event_id, set_det_id, set_temp_det_id, spawn, start_forwading_id,
    stop_forwarding_id, DetIdSpawner, DetThreadId, MaybeId, ThreadContext,
};
use rr_channel::RRMode;
use std::time::Duration;

fn context(mode: RRMode) -> ThreadContext {
    ThreadContext::new(mode, DesyncMode::Panic, true)
}

fn id(path: &[u32]) -> MaybeId {
    MaybeId::some(DetThreadId::from(path))
}

fn name() -> String {
    "i32".to_string()
}

fn done<V>(step: KeyedStep<V>) -> V {
    match step {
        KeyedStep::Done(v) => v,
        KeyedStep::Sleep => panic!("asleep"),
        KeyedStep::Panic(e) => panic!("{:?}", e),
    }
}

fn gave_up<V>(step: KeyedStep<V>) -> DesyncError {
    match step {
        KeyedStep::Panic(e) => e,
        _ => panic!("went on"),
    }
}

fn sent<T>(step: KeyedSendStep<T, SendError<T>>) -> Result<(), SendError<T>> {
    match step {
        KeyedSendStep::Done(r) => r,
        KeyedSendStep::Sleep(_) => panic!("asleep"),
        KeyedSendStep::Panic(e) => panic!("{:?}", e),
    }
}

#[test]
fn determinitic_ids() {
    let mut main = context(RRMode::NoRR);
    for i in 0..4 {
        let mut child = spawn(&mut main);
        assert_eq!(id(&[i]), get_det_id(&child));
        for j in 0..4 {
            assert_eq!(id(&[i, j]), get_det_id(&spawn(&mut child)));
        }
    }
    let mut spawner = DetIdSpawner::new();
    assert_eq!(spawner.new_child_det_id(), DetThreadId::from(&[0]));
    assert_eq!(spawner.child_index, 1);
    let mut spawner = DetIdSpawner::from(DetThreadId::from(&[7; 20]));
    assert_eq!(spawner.new_child_det_id().as_slice().len(), 21);
}

#[test]
fn threads_without_an_id() {
    let mut thread = ThreadContext::new(RRMode::NoRR, DesyncMode::Panic, false);
    assert_eq!(get_det_id(&thread), MaybeId::none());
    assert_eq!(
        get_det_id_desync(&thread),
        Err(DesyncError::UnitializedDetThreadId)
    );
    set_det_id(&mut thread, id(&[3]));
    assert_eq!(get_det_id_desync(&thread), Ok(DetThreadId::from(&[3])));
    set_temp_det_id(&mut thread, id(&[4]));
    assert_eq!(get_temp_det_id(&thread), id(&[4]));
}

#[test]
fn counters_of_a_thread() {
    let mut thread = context(RRMode::NoRR);
    assert_eq!(get_event_id(&thread), 0);
    inc_event_id(&mut thread);
    assert_eq!(get_event_id(&thread), 1);
    assert_eq!(get_and_inc_channel_id(&mut thread), 0);
    assert_eq!(get_and_inc_channel_id(&mut thread), 1);
    let channel = DetChannelId::new(&mut thread);
    assert_eq!(channel.channel_id, 2);
    assert_eq!(channel.det_thread_id, id(&[]));
    assert_eq!(DetChannelId::fake().det_thread_id, MaybeId::none());
}

#[test]
fn forwarded_messages_carry_the_id_of_their_sender() {
    let mut thread = context(RRMode::Record);
    let indices = RecordedIndices::new();
    let (s, mut r): (Sender<i32>, Receiver<i32>) = unbounded(&mut thread, name());
    let original = get_det_id(&thread);
    start_forwading_id(&mut thread, id(&[8]));
    assert!(in_forwarding(&thread));
    assert_eq!(get_forward_id(&thread), id(&[8]));
    let (step, entry) = s.send(&mut thread, &indices, 1);
    sent(step).unwrap();
    // The entry is one of the thread itself.
    assert_eq!(entry.unwrap().current_thread, id(&[]));
    stop_forwarding_id(&mut thread, original);
    assert!(!in_forwarding(&thread));
    assert_eq!(get_forward_id(&thread), id(&[]));
    let (step, entry) = r.recv(&mut thread, &indices);
    assert_eq!(done(step), Ok(1));
    assert_eq!(
        entry.unwrap().event,
        Recorded::RecvSucc { sender_thread: id(&[8]) }
    );
}

fn entry(thread: MaybeId, event_id: u32, event: Recorded) -> LogEntry {
    LogEntry {
        current_thread: thread,
        event_id,
        event,
        channel: FlavorMarker::Unbounded,
        chan_id: DetChannelId { det_thread_id: id(&[]), channel_id: 0 },
        message_type: name(),
    }
}

#[test]
fn log_is_read_by_key() {
    let indices = RecordedIndices::from_log(vec![
        entry(id(&[]), 0, Recorded::Sender),
        entry(MaybeId::none(), 0, Recorded::MpscSender),
        entry(id(&[1]), 0, Recorded::IpcSender),
        entry(MaybeId::none(), 0, Recorded::MpscSender),
    ])
    .unwrap();
    let main = || DetThreadId::from(&[]);
    assert_eq!(get_log_entry(&indices, main(), 0), Ok(Recorded::Sender));
    assert_eq!(
        get_log_entry(&indices, DetThreadId::from(&[1]), 0),
        Ok(Recorded::IpcSender)
    );
    assert_eq!(
        get_log_entry(&indices, main(), 1),
        Err(DesyncError::NoEntryInLog(main(), 1))
    );
    let channel = |channel_id: u32| DetChannelId { det_thread_id: id(&[]), channel_id };
    assert_eq!(
        get_log_entry_ret(&indices, main(), 0),
        Ok((Recorded::Sender, FlavorMarker::Unbounded, channel(0)))
    );
    let with = |flavor: FlavorMarker, c: u32| {
        get_log_entry_with(&indices, main(), 0, flavor, &channel(c))
    };
    assert_eq!(with(FlavorMarker::Unbounded, 0), Ok(Recorded::Sender));
    assert_eq!(
        with(FlavorMarker::Ipc, 1),
        Err(DesyncError::FlavorMismatch(FlavorMarker::Unbounded, FlavorMarker::Ipc))
    );
    assert_eq!(
        with(FlavorMarker::Unbounded, 1),
        Err(DesyncError::ChannelMismatch(channel(0), channel(1)))
    );
}

#[test]
fn corrupted_log_is_refused() {
    let log = vec![
        entry(id(&[]), 0, Recorded::Sender),
        entry(id(&[]), 1, Recorded::Sender),
        entry(id(&[]), 0, Recorded::IpcSender),
    ];
    assert!(RecordedIndices::from_log(log).is_none());
}

#[test]
fn log_counts_events() {
    let mut thread = context(RRMode::Record);
    let channel = DetChannelId::new(&mut thread);
    for event_id in 0..3 {
        let logged = log(
            &mut thread,
            Recorded::Sender,
            FlavorMarker::Unbounded,
            &name(),
            &channel,
        );
        assert_eq!(logged, entry(id(&[]), event_id, Recorded::Sender));
    }
}

#[test]
fn recv_from_sender_keeps_others() {
    let (s, r) = crossbeam_channel::unbounded::<(MaybeId, u32)>();
    s.send((MaybeId::none(), 10)).unwrap();
    s.send((id(&[2]), 11)).unwrap();
    let f = || r.try_recv().map_err(|_| RecvErrorRR::Timeout);
    let mut buffer: Buffer<u32> = Buffer::new();
    assert_eq!(recv_from_sender(&id(&[2]), f, &mut buffer), Ok(11));
    assert_eq!(recv_from_sender(&MaybeId::none(), f, &mut buffer), Ok(10));
    assert_eq!(
        recv_from_sender(&MaybeId::none(), f, &mut buffer),
        Err(DesyncError::Timedout)
    );
    let closed = || Err(RecvErrorRR::Disconnected);
    assert_eq!(
        recv_from_sender(&MaybeId::none(), closed, &mut buffer),
        Err(DesyncError::Disconnected)
    );
}

/// Runs a program and gives what it received, and what is to be logged.
fn program(
    thread: &mut ThreadContext,
    indices: &RecordedIndices,
) -> (Vec<Result<i32, RecvErrorDef>>, Vec<LogEntry>) {
    let (s, mut r): (Sender<i32>, Receiver<i32>) = unbounded(thread, name());
    let mut entries = vec![];
    let (step, e) = r.try_recv(thread, indices);
    assert_eq!(done(step), Err(TryRecvErrorDef::Empty));
    entries.extend(e);
    for msg in [4, 5] {
        let (step, e) = s.send(thread, indices, msg);
        sent(step).unwrap();
        entries.extend(e);
    }
    drop(s);
    let mut results = vec![];
    for _ in 0..3 {
        let (step, e) = r.recv(thread, indices);
        results.push(done(step));
        entries.extend(e);
    }
    let (step, e) = r.recv_timeout(thread, indices, Duration::from_millis(1));
    assert_eq!(done(step), Err(RecvTimeoutErrorDef::Disconnected));
    entries.extend(e);
    (results, entries)
}

#[test]
fn keyed_program_in_all_modes() {
    let expected = vec![Ok(4), Ok(5), Err(RecvErrorDef {})];
    let empty = RecordedIndices::new();
    let (results, entries) = program(&mut context(RRMode::NoRR), &empty);
    assert_eq!(results, expected);
    assert!(entries.is_empty());

    let mut thread = context(RRMode::Record);
    let (results, entries) = program(&mut thread, &empty);
    assert_eq!(results, expected);
    assert_eq!(get_event_id(&thread), 7);
    assert_eq!(entries.len(), 7);
    assert_eq!(
        entries[0],
        entry(id(&[]), 0, Recorded::TryRecvErr(TryRecvErrorDef::Empty))
    );
    assert_eq!(entries[1], entry(id(&[]), 1, Recorded::Sender));
    let sender_thread = id(&[]);
    assert_eq!(entries[3], entry(id(&[]), 3, Recorded::RecvSucc { sender_thread }));

    let indices = RecordedIndices::from_log(entries).unwrap();
    let mut thread = context(RRMode::Replay);
    let (results, entries) = program(&mut thread, &indices);
    assert_eq!(results, expected);
    assert!(entries.is_empty());
    assert_eq!(get_event_id(&thread), 7);

    // A thread without an id cannot follow the log.
    let mut thread = ThreadContext::new(RRMode::Replay, DesyncMode::Panic, false);
    let (results, _) = program(&mut thread, &indices);
    assert_eq!(results, expected);
}

#[test]
fn keyed_sleep_and_wakeup() {
    let indices = RecordedIndices::new();
    let mut thread = context(RRMode::Replay);
    thread.desync_mode = DesyncMode::KeepGoing;
    let (s, mut r): (Sender<i32>, Receiver<i32>) = unbounded(&mut thread, name());
    assert!(matches!(s.send(&mut thread, &indices, 6).0, KeyedSendStep::Sleep(6)));
    assert!(matches!(r.recv(&mut thread, &indices).0, KeyedStep::Sleep));
    assert_eq!(get_event_id(&thread), 0);
    assert_eq!(sent(s.send_after_wakeup(&mut thread, 6)), Ok(()));
    assert_eq!(done(r.recv_after_wakeup(&mut thread)), Ok(6));
    assert_eq!(get_event_id(&thread), 2);
    assert_eq!(
        done(r.try_recv_after_wakeup(&mut thread)),
        Err(TryRecvErrorDef::Empty)
    );
    let timeout = Duration::from_millis(1);
    assert_eq!(
        done(r.recv_timeout_after_wakeup(&mut thread, timeout)),
        Err(RecvTimeoutErrorDef::Timeout)
    );
    assert!(!mark_program_as_desynced(&mut thread));
    // Once desynchronized, the log does not matter to senders.
    assert_eq!(sent(s.send(&mut thread, &indices, 7).0), Ok(()));
    thread.desync_mode = DesyncMode::Panic;
    match s.send(&mut thread, &indices, 8).0 {
        KeyedSendStep::Panic(e) => assert_eq!(e, DesyncError::Desynchronized),
        _ => panic!("went on"),
    }
}

#[test]
fn keyed_mismatches() {
    let log = vec![
        entry(id(&[]), 0, Recorded::MpscSender),
        entry(id(&[]), 1, Recorded::RecvSucc { sender_thread: id(&[9]) }),
    ];
    let indices = RecordedIndices::from_log(log).unwrap();
    let mut thread = context(RRMode::Replay);
    let (s, mut r): (Sender<i32>, Receiver<i32>) = unbounded(&mut thread, name());
    match s.send(&mut thread, &indices, 1).0 {
        KeyedSendStep::Panic(e) => assert_eq!(
            e,
            DesyncError::EventMismatch(Recorded::MpscSender, Recorded::Sender)
        ),
        _ => panic!("went on"),
    }
    let expected = Recorded::RecvSucc { sender_thread: MaybeId::none() };
    assert_eq!(
        gave_up(r.recv(&mut thread, &indices).0),
        DesyncError::EventMismatch(Recorded::MpscSender, expected)
    );
    inc_event_id(&mut thread);
    s.underlying_send(id(&[5]), 50).unwrap();
    assert_eq!(gave_up(r.recv(&mut thread, &indices).0), DesyncError::Timedout);
    assert_eq!(get_event_id(&thread), 1);
    assert_eq!(r.get_buffered_value(), Some(50));
}

#[test]
fn keyed_kinds_of_channels() {
    let mut thread = context(RRMode::NoRR);
    let indices = RecordedIndices::new();
    let (s, mut r): (Sender<i32>, Receiver<i32>) = bounded(&mut thread, 2, name());
    assert_eq!(r.flavor(), FlavorMarker::Bounded);
    let copy = s.clone();
    drop(s);
    sent(copy.send(&mut thread, &indices, 3).0).unwrap();
    assert_eq!(done(r.recv(&mut thread, &indices).0), Ok(3));
    drop(copy);
    assert_eq!(done(r.recv(&mut thread, &indices).0), Err(RecvErrorDef {}));
    let r: Receiver<i32> = never(&mut thread, name());
    assert_eq!(r.metadata().flavor, FlavorMarker::Never);
    let instant = "std::time::Instant".to_string();
    let mut r = after(&mut thread, Duration::from_millis(1), instant);
    assert_eq!(r.flavor(), FlavorMarker::After);
    assert!(done(r.recv(&mut thread, &indices).0).is_ok());
}

#[test]
fn keyed_poll_entry() {
    let mut thread = context(RRMode::NoRR);
    let (s, mut r): (Sender<i32>, Receiver<i32>) = unbounded(&mut thread, name());
    s.underlying_send(id(&[2]), 20).unwrap();
    s.underlying_send(id(&[1]), 10).unwrap();
    assert_eq!(r.poll_entry(&thread, &id(&[1]), Duration::from_secs(1)), Ok(true));
    assert_eq!(r.poll_entry(&thread, &id(&[2]), Duration::from_secs(1)), Ok(true));
    assert_eq!(r.poll_entry(&thread, &id(&[3]), Duration::from_secs(0)), Ok(false));
    assert_eq!(r.replay_recv(&thread, &id(&[1])), Ok(10));
    drop(s);
    assert_eq!(
        r.poll_entry(&thread, &MaybeId::none(), Duration::from_secs(0)),
        Err(DesyncError::Disconnected)
    );
}

fn complete(
    thread: &mut ThreadContext,
    op: SelectedOperation<usize>,
    r: &mut Receiver<i32>,
    raw: fn() -> SelectedMessage<i32>,
) -> (Result<Result<i32, RecvErrorDef>, DesyncError>, Option<LogEntry>) {
    op.record_replay_recv(thread, r, &|_: usize| raw())
}

fn success(sender: &[u32], selected_index: usize) -> SelectEvent {
    SelectEvent::Success { sender_thread: id(sender), selected_index }
}

#[test]
fn keyed_select_in_all_modes() {
    let empty = RecordedIndices::new();
    let mut thread = context(RRMode::Record);
    let (_s, mut r): (Sender<i32>, Receiver<i32>) = unbounded(&mut thread, name());
    let op = done(select_with(thread.mode, &thread, &empty, &|| (2usize, 2usize)));
    assert_eq!(op.index(), 2);
    let (got, logged) = complete(&mut thread, op, &mut r, || {
        SelectedMessage::Tagged(Ok((MaybeId::some(DetThreadId::from(&[3])), 30)))
    });
    assert_eq!(got, Ok(Ok(30)));
    let first = entry(id(&[]), 0, Recorded::Select(success(&[3], 2)));
    assert_eq!(logged.as_ref(), Some(&first));
    let op = done(select_with(thread.mode, &thread, &empty, &|| (1usize, 1usize)));
    let (got, logged2) = complete(&mut thread, op, &mut r, || {
        SelectedMessage::Plain(Err(RecvErrorDef {}))
    });
    assert_eq!(got, Ok(Err(RecvErrorDef {})));
    let log = vec![logged.unwrap(), logged2.unwrap()];

    let indices = RecordedIndices::from_log(log).unwrap();
    let mut thread = context(RRMode::Replay);
    let (s, mut r): (Sender<i32>, Receiver<i32>) = unbounded(&mut thread, name());
    s.underlying_send(id(&[4]), 40).unwrap();
    s.underlying_send(id(&[3]), 30).unwrap();
    let unused = || panic!("the real operation is not completed while replaying");
    let op = done(select_with(thread.mode, &thread, &indices, &|| (9usize, 9usize)));
    assert_eq!(op.index(), 2);
    assert_eq!(complete(&mut thread, op, &mut r, unused).0, Ok(Ok(30)));
    let op = done(select_with(thread.mode, &thread, &indices, &|| (9usize, 9usize)));
    assert_eq!(complete(&mut thread, op, &mut r, unused).0, Ok(Err(RecvErrorDef {})));
    assert_eq!(get_event_id(&thread), 2);
    // The end of the log.
    let step = select_with(thread.mode, &thread, &indices, &|| (9usize, 9usize));
    assert_eq!(
        gave_up(step),
        DesyncError::NoEntryInLog(DetThreadId::from(&[]), 2)
    );
    thread.desync_mode = DesyncMode::KeepGoing;
    let op = done(select_with(thread.mode, &thread, &indices, &|| (9usize, 9usize)));
    assert!(matches!(op, SelectedOperation::Desync(9, 9)));
    let raw = || SelectedMessage::Plain(Ok(1));
    assert_eq!(complete(&mut thread, op, &mut r, raw).0, Ok(Ok(1)));
}

#[test]
fn keyed_select_mismatches() {
    let log = vec![
        entry(id(&[]), 0, Recorded::Sender),
        entry(id(&[]), 1, Recorded::Select(SelectEvent::RecvError { selected_index: 0 })),
    ];
    let indices = RecordedIndices::from_log(log).unwrap();
    let mut thread = context(RRMode::Replay);
    let dummy = SelectEvent::Success {
        sender_thread: MaybeId::none(),
        selected_index: usize::MAX,
    };
    assert_eq!(
        gave_up(select_with(RRMode::Replay, &thread, &indices, &|| (0usize, 0usize))),
        DesyncError::EventMismatch(Recorded::Sender, Recorded::Select(dummy))
    );
    // The event is counted all the same by a query for a ready receiver.
    assert_eq!(
        gave_up(ready_with(RRMode::Replay, &mut thread, &indices, &|| 4).0),
        DesyncError::EventMismatch(Recorded::Sender, Recorded::SelectReady { select_index: 0 })
    );
    assert_eq!(get_event_id(&thread), 1);
    let (_s, mut other): (Sender<i32>, Receiver<i32>) = bounded(&mut thread, 1, name());
    let unused = || SelectedMessage::Plain(Ok(1));
    let op = done(select_with(RRMode::Replay, &thread, &indices, &|| (0usize, 0usize)));
    assert_eq!(
        complete(&mut thread, op, &mut other, unused).0,
        Err(DesyncError::FlavorMismatch(FlavorMarker::Unbounded, FlavorMarker::Bounded))
    );
    let (_s, mut other): (Sender<i32>, Receiver<i32>) = unbounded(&mut thread, name());
    let op = done(select_with(RRMode::Replay, &thread, &indices, &|| (0usize, 0usize)));
    let channel = |channel_id: u32| DetChannelId { det_thread_id: id(&[]), channel_id };
    assert_eq!(
        complete(&mut thread, op, &mut other, unused).0,
        Err(DesyncError::ChannelMismatch(channel(0), channel(1)))
    );
    let thread = ThreadContext::new(RRMode::Replay, DesyncMode::Panic, false);
    assert_eq!(
        gave_up(select_with(RRMode::Replay, &thread, &indices, &|| (0usize, 0usize))),
        DesyncError::UnitializedDetThreadId
    );
}

#[test]
fn keyed_ready_in_all_modes() {
    let empty = RecordedIndices::new();
    let mut thread = context(RRMode::Record);
    let (step, logged) = ready_with(thread.mode, &mut thread, &empty, &|| 3);
    assert_eq!(done(step), 3);
    let logged = logged.unwrap();
    assert_eq!(logged.event, Recorded::SelectReady { select_index: 3 });
    assert_eq!(logged.channel, FlavorMarker::NoFlavor);
    assert_eq!(logged.message_type, "ready");
    let indices = RecordedIndices::from_log(vec![logged]).unwrap();
    let mut thread = context(RRMode::Replay);
    let (step, logged) = ready_with(thread.mode, &mut thread, &indices, &|| 5);
    assert_eq!(done(step), 3);
    assert!(logged.is_none());
    let mut thread = context(RRMode::NoRR);
    let (step, _) = ready_with(thread.mode, &mut thread, &indices, &|| 5);
    assert_eq!(done(step), 5);
}

#[test]
fn keyed_select_is_made_on_the_channels() {
    let empty = RecordedIndices::new();
    let mut thread = context(RRMode::Record);
    let (s, mut r): (Sender<i32>, Receiver<i32>) = unbounded(&mut thread, name());
    let (full, _full_end): (Sender<i32>, Receiver<i32>) = bounded(&mut thread, 1, name());
    full.underlying_send(id(&[2]), 20).unwrap();
    let real = match &r.receiver {
        Flavor::Unbounded(end) => end.clone(),
        _ => panic!("another kind of channel"),
    };
    let end = Flavor::Unbounded(real);
    s.underlying_send(id(&[3]), 30).unwrap();
    let mut select = Select::new(&thread);
    assert_eq!(select.send(&full), 0);
    assert_eq!(select.recv(&end), 1);
    let (step, logged) = select.ready(&mut thread, &empty);
    assert_eq!(done(step), 1);
    assert_eq!(logged.unwrap().event, Recorded::SelectReady { select_index: 1 });
    let op = done(select.select(&thread, &empty));
    assert_eq!(op.index(), 1);
    let finish = |op: ::crossbeam_channel::SelectedOperation| match &end {
        Flavor::Unbounded(real) => {
            SelectedMessage::Tagged(op.recv(real).map_err(|_| RecvErrorDef {}))
        }
        _ => panic!("another kind of channel"),
    };
    let (got, logged) = op.recv(&mut thread, &mut r, &finish);
    assert_eq!(done(got), Ok(30));
    assert_eq!(logged, Some(entry(id(&[]), 1, Recorded::Select(success(&[3], 1)))));
    // At the end of the log the real select is waited for, and then given up.
    thread.mode = RRMode::Replay;
    s.underlying_send(id(&[3]), 31).unwrap();
    let mut select = Select::new(&thread);
    assert_eq!(select.recv(&end), 0);
    assert_eq!(
        gave_up(select.select(&thread, &empty)),
        DesyncError::NoEntryInLog(DetThreadId::from(&[]), 2)
    );
}
