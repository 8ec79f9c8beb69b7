//! Inter-process channels and sets of their receivers.

use rr_channel::desync::{DesyncMode, Step};
use rr_channel::detthread::{DetThreadId, ThreadState};
use rr_channel::error::DesyncError;
use rr_channel::global_log::GlobalRecorder;
use rr_channel::ipc::{channel, rr_try_recv, IpcReceiver, IpcSender, OpaqueIpcReceiver};
use rr_channel::ipc_message::{deserialize_id, Attempt, IpcSelectionResult, OpaqueIpcMessage};
use rr_channel::ipc_set::{AddStep, Fatal, IpcReceiverSet, IpcSelectStep, MovedReceiver};
use rr_channel::recordlog::{
    ChannelVariant, IpcErrorVariants, IpcSelectEvent, RecordEntry, RecordMetadata, TivoEvent,
};
use rr_channel::recv_events::IpcTryRecvError;
use rr_channel::rr::DetChannelId;
use rr_channel::send::SendStep;
use rr_channel::{DetMessage, EventRecorder, RRMode, Tivo};
use std::cell::{Cell, RefCell};
use std::collections::VecDeque;

fn root(mode: RRMode, desync_mode: DesyncMode, recorder: EventRecorder) -> ThreadState {
    let mut thread = ThreadState::new(mode, desync_mode, recorder);
    Tivo::init_tivo_thread_root_test(&mut thread);
    thread
}

fn replaying(entries: Vec<RecordEntry>, desync_mode: DesyncMode) -> ThreadState {
    let log = EventRecorder::replaying(VecDeque::from(entries));
    root(RRMode::Replay, desync_mode, log)
}

fn entry(event: TivoEvent, channel: u32) -> RecordEntry {
    RecordEntry::new(
        event,
        ChannelVariant::Ipc,
        DetChannelId::from_raw(DetThreadId::new(), channel),
        "i32".to_string(),
    )
}

fn done<V>(step: Step<V>) -> V {
    match step {
        Step::Done(v) => v,
        Step::Sleep => panic!("asleep"),
        Step::Panic(e) => panic!("{:?}", e),
    }
}

/// An inter-process channel within one process.
#[derive(Default)]
struct Wire {
    messages: RefCell<VecDeque<DetMessage<i32>>>,
    closed: Cell<bool>,
}

impl Wire {
    fn send(&self, id: DetThreadId, msg: i32) -> Result<(), i32> {
        if self.closed.get() {
            return Err(msg);
        }
        self.messages.borrow_mut().push_back((id, msg));
        Ok(())
    }

    fn recv(&self) -> Result<DetMessage<i32>, IpcErrorVariants> {
        self.messages
            .borrow_mut()
            .pop_front()
            .ok_or(IpcErrorVariants::Disconnected)
    }

    fn try_recv(&self) -> Result<DetMessage<i32>, IpcTryRecvError> {
        match self.messages.borrow_mut().pop_front() {
            Some(m) => Ok(m),
            None if self.closed.get() => {
                Err(IpcTryRecvError::IpcError(IpcErrorVariants::Disconnected))
            }
            None => Err(IpcTryRecvError::Empty),
        }
    }
}

fn ipc_channel(thread: &mut ThreadState) -> (IpcSender, IpcReceiver<i32>) {
    channel(thread, "i32".to_string()).unwrap()
}

fn program(thread: &mut ThreadState) -> Vec<Result<i32, IpcTryRecvError>> {
    let wire = Wire::default();
    let (s, mut r) = ipc_channel(thread);
    let send = |id: DetThreadId, msg: i32| wire.send(id, msg);
    let recv = || wire.recv();
    let try_recv = || wire.try_recv();
    let pause = || {};
    let mut results = vec![];
    results.push(done(r.try_recv(thread, &try_recv, &pause)));
    for msg in [1, 3] {
        match s.send(thread, msg, &send) {
            SendStep::Done(r) => r.unwrap(),
            _ => panic!("not sent"),
        }
    }
    results.push(done(r.try_recv(thread, &try_recv, &pause)));
    let got = done(r.recv(thread, &recv, &try_recv, &pause));
    results.push(got.map_err(IpcTryRecvError::IpcError));
    let got = done(r.recv(thread, &recv, &try_recv, &pause));
    results.push(got.map_err(IpcTryRecvError::IpcError));
    wire.closed.set(true);
    results.push(done(r.try_recv(thread, &try_recv, &pause)));
    results
}

#[test]
fn ipc_program_in_all_modes() {
    let closed = Err(IpcTryRecvError::IpcError(IpcErrorVariants::Disconnected));
    let expected = vec![Err(IpcTryRecvError::Empty), Ok(1), Ok(3), closed, closed];
    let mut thread = root(
        RRMode::NoRR,
        DesyncMode::Panic,
        EventRecorder::get_global_recorder(),
    );
    assert_eq!(program(&mut thread), expected);

    let mut recorder = GlobalRecorder::init_no_file();
    let log = recorder.start_thread(DetThreadId::new());
    assert_eq!(
        program(&mut root(RRMode::Record, DesyncMode::Panic, log)),
        expected
    );
    let mut entries = recorder.get_all_entries();
    let entries = entries.remove(&DetThreadId::new()).unwrap();
    let sender_thread = DetThreadId::new;
    let log = vec![
        entry(TivoEvent::ChannelCreation, 1),
        entry(TivoEvent::IpcTryRecvErrorEmpty, 1),
        entry(TivoEvent::IpcSender, 1),
        entry(TivoEvent::IpcSender, 1),
        entry(TivoEvent::IpcRecvSucc { sender_thread: sender_thread() }, 1),
        entry(TivoEvent::IpcRecvSucc { sender_thread: sender_thread() }, 1),
        entry(TivoEvent::IpcError(IpcErrorVariants::Disconnected), 1),
        entry(TivoEvent::IpcTryRecvIpcError(IpcErrorVariants::Disconnected), 1),
    ];
    assert_eq!(entries, VecDeque::from(log.clone()));
    assert_eq!(program(&mut replaying(log, DesyncMode::Panic)), expected);
}

#[test]
fn ipc_simple_program_record_test() {
    let mut recorder = GlobalRecorder::init_no_file();
    let log = recorder.start_thread(DetThreadId::new());
    let mut thread = root(RRMode::Record, DesyncMode::Panic, log);
    let wire = Wire::default();
    let (s, mut r) = ipc_channel(&mut thread);
    let send = |id: DetThreadId, msg: i32| wire.send(id, msg);
    let recv = || wire.recv();
    let try_recv = || wire.try_recv();
    for msg in [1, 3, 5] {
        match s.send(&mut thread, msg, &send) {
            SendStep::Done(r) => r.unwrap(),
            _ => panic!("not sent"),
        }
    }
    for msg in [1, 3, 5] {
        assert_eq!(done(r.recv(&mut thread, &recv, &try_recv, &|| {})), Ok(msg));
    }
    let mut expected = VecDeque::from(vec![entry(TivoEvent::ChannelCreation, 1)]);
    for _ in 0..3 {
        expected.push_back(entry(TivoEvent::IpcSender, 1));
    }
    for _ in 0..3 {
        let sender_thread = DetThreadId::new();
        expected.push_back(entry(TivoEvent::IpcRecvSucc { sender_thread }, 1));
    }
    let entries = recorder.get_all_entries();
    assert_eq!(entries.get(&DetThreadId::new()), Some(&expected));
}

#[test]
fn given_up_select_loses_nothing() {
    // The first result can be replayed, the second cannot.
    let wires = Wires::new(1);
    let log = vec![
        add_entry(0, 0),
        select_entry(vec![from(0, 6), from(0, 5)]),
        select_entry(vec![from(0, 5), from(1, 5)]),
    ];
    let mut thread = replaying(log, DesyncMode::KeepGoing);
    let mut set = WireSet::new(&thread);
    add(&mut set, &mut thread, 0);
    for (sender, msg) in [(7, 1), (6, 2), (5, 3), (5, 4)] {
        wires.push(0, bytes(&[sender], msg));
    }
    match select(&mut set, &mut thread, &wires) {
        IpcSelectStep::Done(r) => assert_eq!(
            show(&r.unwrap()),
            vec![(0, Some(bytes(&[6], 2))), (0, Some(bytes(&[5], 3)))]
        ),
        _ => panic!("nothing selected"),
    }
    match select(&mut set, &mut thread, &wires) {
        IpcSelectStep::Desync { to_move, entries } => {
            assert_eq!(to_move.len(), 1);
            assert_eq!(
                show(&entries.unwrap()),
                vec![(0, Some(bytes(&[5], 4))), (0, Some(bytes(&[7], 1)))]
            );
        }
        _ => panic!("not desynchronized"),
    }
    // What came instead of an expected end comes behind what is kept.
    let wires = Wires::new(1);
    let closed = vec![from(0, 5), IpcSelectEvent::ChannelClosed(0)];
    let log = vec![add_entry(0, 0), select_entry(closed)];
    let mut thread = replaying(log, DesyncMode::KeepGoing);
    let mut set = WireSet::new(&thread);
    add(&mut set, &mut thread, 0);
    for (sender, msg) in [(6, 1), (5, 2), (6, 3)] {
        wires.push(0, bytes(&[sender], msg));
    }
    match select(&mut set, &mut thread, &wires) {
        IpcSelectStep::Desync { entries, .. } => assert_eq!(
            show(&entries.unwrap()),
            vec![
                (0, Some(bytes(&[5], 2))),
                (0, Some(bytes(&[6], 1))),
                (0, Some(bytes(&[6], 3)))
            ]
        ),
        _ => panic!("not desynchronized"),
    }
}

#[test]
fn ipc_sleep_and_wakeup() {
    let wire = Wire::default();
    let mut thread = replaying(vec![], DesyncMode::KeepGoing);
    let (s, mut r) = ipc_channel(&mut thread);
    let send = |id: DetThreadId, msg: i32| wire.send(id, msg);
    let recv = || wire.recv();
    let try_recv = || wire.try_recv();
    assert!(matches!(s.send(&mut thread, 5, &send), SendStep::Sleep(5)));
    assert!(matches!(
        r.recv(&mut thread, &recv, &try_recv, &|| {}),
        Step::Sleep
    ));
    let step = s.send_after_wakeup(&mut thread, 5, &send);
    assert!(matches!(step, SendStep::Done(Ok(()))));
    assert_eq!(done(r.recv_after_wakeup(&mut thread, &recv)), Ok(5));
    assert_eq!(
        done(r.try_recv_after_wakeup(&mut thread, &try_recv)),
        Err(IpcTryRecvError::Empty)
    );
}

#[test]
fn ipc_sender_clone_works_in_the_mode_of_its_thread() {
    let mut thread = replaying(vec![], DesyncMode::Panic);
    let (s, r) = ipc_channel(&mut thread);
    thread.mode = RRMode::NoRR;
    let copy = s.clone(&thread);
    assert_eq!(copy.mode, RRMode::NoRR);
    assert_eq!(s.mode, RRMode::Replay);
    assert_eq!(copy.metadata.id, r.metadata.id);
}

#[test]
fn attempts_are_limited() {
    let attempts = Cell::new(0);
    let pauses = Cell::new(0);
    let fail_until = |n: u32| {
        attempts.set(0);
        pauses.set(0);
        let try_recv = || {
            attempts.set(attempts.get() + 1);
            if attempts.get() < n {
                Err(IpcTryRecvError::Empty)
            } else {
                Ok((DetThreadId::new(), 1))
            }
        };
        let poll = rr_try_recv(&try_recv, &|| pauses.set(pauses.get() + 1));
        (poll.is_ok(), attempts.get(), pauses.get())
    };
    assert_eq!(fail_until(1), (true, 1, 0));
    assert_eq!(fail_until(10), (true, 10, 9));
    assert_eq!(fail_until(11), (false, 10, 10));
}

fn bytes(id: &[u32], payload: u16) -> Vec<u8> {
    let mut numbers = [0u32; 10];
    numbers[..id.len()].copy_from_slice(id);
    bincode::serialize(&((numbers, id.len() as u64), payload)).unwrap()
}

fn message(id: &[u32], payload: u16) -> OpaqueIpcMessage<()> {
    OpaqueIpcMessage::new(bytes(id, payload), ())
}

#[test]
fn senders_are_read_from_the_bytes() {
    let id = |data: Vec<u8>| deserialize_id(&OpaqueIpcMessage::new(data, ()));
    assert_eq!(id(bytes(&[], 7)), Some(DetThreadId::new()));
    let path = [258, 2, 0, 4_000_000_000];
    assert_eq!(id(bytes(&path, 7)), Some(DetThreadId::from(&path)));
    // The payload may be empty, but not the sender.
    let mut data = bytes(&[5], 7);
    data.truncate(48);
    assert_eq!(id(data.clone()), Some(DetThreadId::from(&[5])));
    data.truncate(47);
    assert_eq!(id(data), None);
    // No thread has such an id.
    let mut data = bytes(&[5], 7);
    data[40] = 0;
    assert_eq!(id(data.clone()), None);
    data[40] = 11;
    assert_eq!(id(data), None);
}

#[test]
fn selection_results() {
    let (index, msg) = IpcSelectionResult::MessageReceived(4, message(&[1], 6)).unwrap();
    assert_eq!(index, 4);
    assert_eq!(msg.data, bytes(&[1], 6));
}

/// Receivers of a set: queues of bytes, each open or closed.
struct Wires(RefCell<Vec<(VecDeque<Vec<u8>>, bool)>>);

impl Wires {
    fn new(n: usize) -> Wires {
        Wires(RefCell::new(vec![(VecDeque::new(), true); n]))
    }

    fn push(&self, wire: usize, data: Vec<u8>) {
        self.0.borrow_mut()[wire].0.push_back(data);
    }

    fn close(&self, wire: usize) {
        self.0.borrow_mut()[wire].1 = false;
    }

    fn try_recv(&self, wire: usize) -> Attempt<()> {
        let (queue, open) = &mut self.0.borrow_mut()[wire];
        match queue.pop_front() {
            Some(data) => Attempt::Message(OpaqueIpcMessage::new(data, ())),
            None if *open => Attempt::Failed,
            None => Attempt::Closed,
        }
    }
}

type WireSet = IpcReceiverSet<usize, ()>;

fn opaque(wire: usize) -> OpaqueIpcReceiver<usize> {
    OpaqueIpcReceiver {
        opaque_receiver: wire,
        metadata: RecordMetadata::new(
            "i32".to_string(),
            ChannelVariant::Ipc,
            DetChannelId::from_raw(DetThreadId::new(), wire as u32),
        ),
        closed: false,
    }
}

fn add(set: &mut WireSet, thread: &mut ThreadState, wire: usize) -> AddStep<usize, String> {
    set.add_opaque(thread, opaque(wire), &|wire: usize| Ok(100 + wire as u64))
}

fn select(set: &mut WireSet, thread: &mut ThreadState, wires: &Wires) -> IpcSelectStep<usize, (), String> {
    let real = || {
        Ok(vec![
            IpcSelectionResult::MessageReceived(3, message(&[8], 80)),
            IpcSelectionResult::ChannelClosed(4),
        ])
    };
    set.select(thread, &real, &|wire: &usize| wires.try_recv(*wire), &|| {})
}

/// Results as text: `index:sender` bytes, or `index closed`.
fn show(results: &[IpcSelectionResult<()>]) -> Vec<(u64, Option<Vec<u8>>)> {
    results
        .iter()
        .map(|r| match r {
            IpcSelectionResult::MessageReceived(i, m) => (*i, Some(m.data.clone())),
            IpcSelectionResult::ChannelClosed(i) => (*i, None),
        })
        .collect()
}

fn add_entry(index: u64, wire: u32) -> RecordEntry {
    entry(TivoEvent::IpcSelectAdd(index), wire)
}

fn select_entry(select_events: Vec<IpcSelectEvent>) -> RecordEntry {
    RecordEntry::new(
        TivoEvent::IpcSelect { select_events },
        ChannelVariant::IpcSelect,
        DetChannelId::fake(),
        "IpcSelect".to_string(),
    )
}

fn from(index: u64, sender: u32) -> IpcSelectEvent {
    IpcSelectEvent::MessageReceived(index, DetThreadId::from(&[sender]))
}

#[test]
fn set_is_recorded() {
    let mut recorder = GlobalRecorder::init_no_file();
    let log = recorder.start_thread(DetThreadId::new());
    let mut thread = root(RRMode::Record, DesyncMode::Panic, log);
    let mut set = WireSet::new(&thread);
    assert!(matches!(add(&mut set, &mut thread, 7), AddStep::Done(Ok(107))));
    let results = match select(&mut set, &mut thread, &Wires::new(0)) {
        IpcSelectStep::Done(r) => r.unwrap(),
        _ => panic!("nothing selected"),
    };
    assert_eq!(show(&results), vec![(3, Some(bytes(&[8], 80))), (4, None)]);
    // A failed addition is not logged.
    let failed = set.add_opaque(&mut thread, opaque(1), &|_: usize| Err::<u64, _>("full"));
    assert!(matches!(failed, AddStep::Done(Err("full"))));
    let failed = set.select(
        &mut thread,
        &|| Err::<Vec<IpcSelectionResult<()>>, _>("broken"),
        &|_: &usize| Attempt::Failed,
        &|| {},
    );
    assert!(matches!(failed, IpcSelectStep::Done(Err("broken"))));
    let unreadable = set.select(
        &mut thread,
        &|| {
            let msg = OpaqueIpcMessage::new(vec![1, 2], ());
            Ok::<_, ()>(vec![IpcSelectionResult::MessageReceived(0, msg)])
        },
        &|_: &usize| Attempt::Failed,
        &|| {},
    );
    assert!(matches!(unreadable, IpcSelectStep::Fatal(Fatal::UnreadableSender)));
    let entries = recorder.get_all_entries();
    let expected = VecDeque::from(vec![
        add_entry(107, 7),
        select_entry(vec![from(3, 8), IpcSelectEvent::ChannelClosed(4)]),
    ]);
    assert_eq!(entries.get(&DetThreadId::new()), Some(&expected));
    // Without a log nothing can be added or selected.
    let no_log = EventRecorder::get_global_recorder();
    let mut thread = root(RRMode::Record, DesyncMode::Panic, no_log);
    match add(&mut set, &mut thread, 1) {
        AddStep::Panic(e) => {
            assert_eq!(e, DesyncError::CannotWriteEventToLog(add_entry(101, 1)))
        }
        _ => panic!("went on"),
    }
    match select(&mut set, &mut thread, &Wires::new(0)) {
        IpcSelectStep::Fatal(Fatal::LogFailed(e)) => {
            let events = vec![from(3, 8), IpcSelectEvent::ChannelClosed(4)];
            assert_eq!(e, DesyncError::CannotWriteEventToLog(select_entry(events)))
        }
        _ => panic!("went on"),
    }
}

#[test]
fn set_is_replayed() {
    let wires = Wires::new(2);
    let mut thread = replaying(
        vec![
            add_entry(0, 0),
            add_entry(1, 1),
            select_entry(vec![from(1, 6), from(0, 5)]),
            select_entry(vec![from(1, 5), IpcSelectEvent::ChannelClosed(0)]),
        ],
        DesyncMode::Panic,
    );
    let mut set = WireSet::new(&thread);
    assert!(matches!(add(&mut set, &mut thread, 0), AddStep::Done(Ok(0))));
    assert!(matches!(add(&mut set, &mut thread, 1), AddStep::Done(Ok(1))));
    wires.push(0, bytes(&[5], 1));
    wires.push(1, bytes(&[5], 2));
    wires.push(1, bytes(&[6], 3));
    wires.close(0);
    let mut next = || match select(&mut set, &mut thread, &wires) {
        IpcSelectStep::Done(r) => show(&r.unwrap()),
        _ => panic!("nothing selected"),
    };
    let expected = vec![(1, Some(bytes(&[6], 3))), (0, Some(bytes(&[5], 1)))];
    assert_eq!(next(), expected);
    assert_eq!(next(), vec![(1, Some(bytes(&[5], 2))), (0, None)]);
    assert!(matches!(
        select(&mut set, &mut thread, &wires),
        IpcSelectStep::Sleep
    ));
    assert!(set.receivers[0].closed);
    assert!(!set.receivers[1].closed);
}

#[test]
fn set_passthrough() {
    let no_log = EventRecorder::get_global_recorder();
    let mut thread = root(RRMode::NoRR, DesyncMode::Panic, no_log);
    let mut set = WireSet::new(&thread);
    assert!(matches!(add(&mut set, &mut thread, 2), AddStep::Done(Ok(102))));
    match select(&mut set, &mut thread, &Wires::new(0)) {
        IpcSelectStep::Done(r) => assert_eq!(r.unwrap().len(), 2),
        _ => panic!("nothing selected"),
    }
}

fn add_error(entry: RecordEntry) -> DesyncError {
    let mut thread = replaying(vec![entry], DesyncMode::Panic);
    let mut set = WireSet::new(&thread);
    match add(&mut set, &mut thread, 3) {
        AddStep::Panic(e) => e,
        _ => panic!("went on"),
    }
}

#[test]
fn additions_are_checked() {
    let id = |channel: u32| DetChannelId::from_raw(DetThreadId::new(), channel);
    assert_eq!(
        add_error(add_entry(2, 3)),
        DesyncError::SelectIndexMismatch(2, 0)
    );
    assert_eq!(
        add_error(add_entry(0, 4)),
        DesyncError::ChannelMismatch(id(4), id(3))
    );
    assert_eq!(
        add_error(entry(TivoEvent::IpcSender, 3)),
        DesyncError::EventMismatch(TivoEvent::IpcSender, TivoEvent::IpcSelectAdd(0))
    );
    let mut thread = replaying(vec![], DesyncMode::Panic);
    let mut set = WireSet::new(&thread);
    match add(&mut set, &mut thread, 3) {
        AddStep::Panic(e) => assert_eq!(e, DesyncError::NoEntryInLog),
        _ => panic!("went on"),
    }
    // An entry that is already there.
    let mut set = WireSet::new(&thread);
    set.receivers.push(opaque(1));
    assert_eq!(
        set.rr_add_check_mismatch(add_entry(0, 3), &opaque(3).metadata),
        Err(DesyncError::SelectExistingEntry(0))
    );
}

fn select_error(events: Vec<IpcSelectEvent>, wires: &Wires) -> DesyncError {
    let log = vec![add_entry(0, 0), select_entry(events)];
    let mut thread = replaying(log, DesyncMode::Panic);
    let mut set = WireSet::new(&thread);
    add(&mut set, &mut thread, 0);
    match select(&mut set, &mut thread, wires) {
        IpcSelectStep::Panic(e) => e,
        _ => panic!("went on"),
    }
}

#[test]
fn selects_of_a_set_are_checked() {
    let wires = Wires::new(1);
    assert_eq!(
        select_error(vec![from(1, 5)], &wires),
        DesyncError::MissingReceiver(1)
    );
    let closed = |index: u64| vec![IpcSelectEvent::ChannelClosed(index)];
    assert_eq!(
        select_error(closed(1), &wires),
        DesyncError::MissingReceiver(1)
    );
    assert_eq!(
        select_error(vec![from(0, 5)], &wires),
        DesyncError::Timeout(None)
    );
    assert_eq!(select_error(closed(0), &wires), DesyncError::Timeout(None));
    wires.push(0, bytes(&[5], 1));
    assert_eq!(
        select_error(closed(0), &wires),
        DesyncError::ChannelClosedExpected
    );
    wires.close(0);
    assert_eq!(
        select_error(vec![from(0, 5)], &wires),
        DesyncError::ChannelClosedUnexpected(0)
    );
    // Another event.
    let mut thread = replaying(vec![entry(TivoEvent::IpcSender, 1)], DesyncMode::Panic);
    let mut set = WireSet::new(&thread);
    let dummy = TivoEvent::IpcSelect { select_events: vec![] };
    match select(&mut set, &mut thread, &wires) {
        IpcSelectStep::Panic(e) => {
            assert_eq!(e, DesyncError::EventMismatch(TivoEvent::IpcSender, dummy))
        }
        _ => panic!("went on"),
    }
    // A message whose sender cannot be read.
    let wires = Wires::new(1);
    wires.push(0, vec![1, 2, 3]);
    let log = vec![add_entry(0, 0), select_entry(vec![from(0, 5)])];
    let mut thread = replaying(log, DesyncMode::KeepGoing);
    let mut set = WireSet::new(&thread);
    add(&mut set, &mut thread, 0);
    assert!(matches!(
        select(&mut set, &mut thread, &wires),
        IpcSelectStep::Fatal(Fatal::UnreadableSender)
    ));
}

#[test]
fn set_gives_up_its_receivers_in_order() {
    let wires = Wires::new(3);
    let mut thread = replaying(
        vec![
            add_entry(0, 0),
            add_entry(1, 1),
            add_entry(2, 2),
            select_entry(vec![IpcSelectEvent::ChannelClosed(1), from(2, 5)]),
        ],
        DesyncMode::KeepGoing,
    );
    let mut set = WireSet::new(&thread);
    for wire in 0..3 {
        add(&mut set, &mut thread, wire);
    }
    wires.close(1);
    wires.push(2, bytes(&[6], 1));
    wires.push(2, bytes(&[7], 2));
    wires.push(2, bytes(&[6], 3));
    // Nothing comes from the expected thread.
    match select(&mut set, &mut thread, &wires) {
        IpcSelectStep::Desync { to_move, entries } => {
            assert_eq!(to_move.len(), 3);
            assert!(matches!(to_move[0], MovedReceiver::Open(0)));
            assert!(matches!(to_move[1], MovedReceiver::Dummy));
            assert!(matches!(to_move[2], MovedReceiver::Open(2)));
            let mut kept = show(&entries.unwrap());
            kept.sort();
            // The end that was replayed is not lost either.
            let mut all = vec![
                (1, None),
                (2, Some(bytes(&[6], 1))),
                (2, Some(bytes(&[7], 2))),
                (2, Some(bytes(&[6], 3))),
            ];
            all.sort();
            assert_eq!(kept, all);
        }
        _ => panic!("not desynchronized"),
    }
    assert!(thread.desynced);
    assert!(set.desynced);
    // The channel that stands for the closed one has used up an id.
    assert_eq!(thread.next_channel_id, 2);
    // The next time there is nothing left.
    match select(&mut set, &mut thread, &wires) {
        IpcSelectStep::Desync { to_move, entries } => {
            assert!(to_move.is_empty());
            assert!(entries.is_none());
        }
        _ => panic!("not desynchronized"),
    }
    match add(&mut set, &mut thread, 9) {
        AddStep::Desync { to_move, receiver } => {
            assert!(to_move.is_empty());
            assert_eq!(receiver, 9);
        }
        _ => panic!("not desynchronized"),
    }
    let step: IpcSelectStep<usize, (), String> = set.select_after_wakeup(&mut thread);
    assert!(matches!(step, IpcSelectStep::Desync { .. }));
}
