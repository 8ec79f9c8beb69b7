//! Inter-process channels with a keyed log.

use rr_channel::desync::DesyncMode;
use rr_channel::ipc_message::{Attempt, IpcSelectionResult, OpaqueIpcMessage};
use rr_channel::ipc_set::{MovedReceiver};
use rr_channel::keyed::flow::{KeyedStep, Message};
use rr_channel::keyed::ipc::{channel, IpcReceiver, IpcSender, OpaqueIpcReceiver};
use rr_channel::keyed::ipc_set::{
    deserialize_id, AddStep, Broken, IpcReceiverSet, IpcSelectStep,
};
use rr_channel::keyed::record_replay::{
    DesyncError, DetChannelId, FlavorMarker, IpcDummyError, IpcSelectEvent, LogEntry,
    RecordMetadata, Recorded, RecordedIndices,
};
use rr_channel::keyed::send::KeyedSendStep;
use rr_channel::keyed::thread::{
    get_and_inc_channel_id, get_event_id, DetThreadId, MaybeId, ThreadContext,
};
use rr_channel::RRMode;
use std::cell::RefCell;
use std::collections::VecDeque;

fn context(mode: RRMode, desync_mode: DesyncMode) -> ThreadContext {
    ThreadContext::new(mode, desync_mode, true)
}

fn id(path: &[u32]) -> MaybeId {
    MaybeId::some(DetThreadId::from(path))
}

fn chan(channel_id: u32) -> DetChannelId {
    DetChannelId { det_thread_id: id(&[]), channel_id }
}

fn entry(event_id: u32, event: Recorded, channel_id: u32) -> LogEntry {
    LogEntry {
        current_thread: id(&[]),
        event_id,
        event,
        channel: FlavorMarker::Ipc,
        chan_id: chan(channel_id),
        message_type: "i32".to_string(),
    }
}

fn select_entry(event_id: u32, select_events: Vec<IpcSelectEvent>) -> LogEntry {
    LogEntry {
        current_thread: id(&[]),
        event_id,
        event: Recorded::IpcSelect { select_events },
        channel: FlavorMarker::IpcSelect,
        chan_id: DetChannelId::fake(),
        message_type: "IpcSelect".to_string(),
    }
}

fn program(thread: &mut ThreadContext, indices: &RecordedIndices) -> (Vec<i32>, Vec<LogEntry>) {
    let wire: RefCell<VecDeque<Message<i32>>> = RefCell::default();
    let (s, mut r): (IpcSender, IpcReceiver<i32>) = channel(thread, "i32".to_string());
    let send = |id: MaybeId, msg: i32| -> Result<(), ()> {
        wire.borrow_mut().push_back((id, msg));
        Ok(())
    };
    let recv = || wire.borrow_mut().pop_front().ok_or(IpcDummyError {});
    let mut entries = vec![];
    let mut results = vec![];
    let mut got = |step: KeyedStep<Result<i32, IpcDummyError>>| match step {
        KeyedStep::Done(Ok(v)) => results.push(v),
        KeyedStep::Done(Err(_)) => results.push(-1),
        _ => panic!("nothing received"),
    };
    let (step, e) = r.try_recv(thread, indices, &recv, &|| {});
    got(step);
    entries.extend(e);
    let (step, e) = s.send(thread, indices, 5, &send);
    assert!(matches!(step, KeyedSendStep::Done(Ok(()))));
    entries.extend(e);
    let (step, e) = r.recv(thread, indices, &recv, &recv, &|| {});
    got(step);
    entries.extend(e);
    (results, entries)
}

#[test]
fn keyed_ipc_program_in_all_modes() {
    let empty = RecordedIndices::new();
    let mut thread = context(RRMode::NoRR, DesyncMode::Panic);
    assert_eq!(program(&mut thread, &empty), (vec![-1, 5], vec![]));
    let mut thread = context(RRMode::Record, DesyncMode::Panic);
    let (results, entries) = program(&mut thread, &empty);
    assert_eq!(results, vec![-1, 5]);
    let expected = vec![
        entry(0, Recorded::IpcRecvErr(IpcDummyError {}), 0),
        entry(1, Recorded::IpcSender, 0),
        entry(2, Recorded::IpcRecvSucc { sender_thread: id(&[]) }, 0),
    ];
    assert_eq!(entries, expected);
    let indices = RecordedIndices::from_log(entries).unwrap();
    let mut thread = context(RRMode::Replay, DesyncMode::Panic);
    assert_eq!(program(&mut thread, &indices), (vec![-1, 5], vec![]));
}

#[test]
fn keyed_ipc_wakeup_and_connect() {
    let mut thread = context(RRMode::Replay, DesyncMode::KeepGoing);
    let s = IpcSender::connect(&mut thread, "u8".to_string());
    assert_eq!(s.metadata.id, chan(0));
    assert_eq!(s.metadata.flavor, FlavorMarker::Ipc);
    let sent = RefCell::new(vec![]);
    let send = |id: MaybeId, msg: u8| -> Result<(), ()> {
        sent.borrow_mut().push((id, msg));
        Ok(())
    };
    let step = s.send_after_wakeup(&mut thread, 3, &send);
    assert!(matches!(step, KeyedSendStep::Done(Ok(()))));
    assert_eq!(sent.into_inner(), vec![(id(&[]), 3)]);
    let (_s, mut r): (IpcSender, IpcReceiver<u8>) = channel(&mut thread, "u8".to_string());
    let recv = || Ok((id(&[1]), 4));
    assert!(matches!(
        r.recv_after_wakeup(&mut thread, &recv),
        KeyedStep::Done(Ok(4))
    ));
    assert_eq!(r.replay_recv(&id(&[1]), &recv, &|| {}), Ok(4));
}

fn bytes(path: Option<Vec<u32>>, payload: u8) -> Vec<u8> {
    bincode::serialize(&(path, payload)).unwrap()
}

#[test]
fn keyed_senders_are_read_from_the_bytes() {
    let read = |data: Vec<u8>| deserialize_id(&OpaqueIpcMessage::new(data, ()));
    assert_eq!(read(bytes(None, 7)), Some(MaybeId::none()));
    assert_eq!(read(bytes(Some(vec![]), 7)), Some(id(&[])));
    let path = vec![1, 70000, 4_000_000_000];
    assert_eq!(read(bytes(Some(path.clone()), 7)), Some(id(&path)));
    assert_eq!(read(vec![]), None);
    assert_eq!(read(vec![2]), None);
    let mut data = bytes(Some(path), 7);
    data.truncate(20);
    assert_eq!(read(data), None);
}

struct Wires(RefCell<Vec<(VecDeque<Vec<u8>>, bool)>>);

impl Wires {
    fn recv(&self, wire: usize) -> Attempt<()> {
        let (queue, open) = &mut self.0.borrow_mut()[wire];
        match queue.pop_front() {
            Some(data) => Attempt::Message(OpaqueIpcMessage::new(data, ())),
            None if *open => Attempt::Failed,
            None => Attempt::Closed,
        }
    }
}

type WireSet = IpcReceiverSet<usize, ()>;

fn opaque(wire: usize) -> OpaqueIpcReceiver<usize> {
    OpaqueIpcReceiver {
        opaque_receiver: wire,
        metadata: RecordMetadata {
            message_type: "i32".to_string(),
            flavor: FlavorMarker::Ipc,
            mode: RRMode::Replay,
            id: chan(wire as u32),
        },
        closed: false,
    }
}

fn add(
    set: &mut WireSet,
    thread: &mut ThreadContext,
    indices: &RecordedIndices,
    wire: usize,
) -> (AddStep<usize, ()>, Option<LogEntry>) {
    set.add_opaque(thread, indices, opaque(wire), &|w: usize| Ok(100 + w as u64))
}

fn select(
    set: &mut WireSet,
    thread: &mut ThreadContext,
    indices: &RecordedIndices,
    wires: &Wires,
) -> (IpcSelectStep<usize, (), ()>, Option<LogEntry>) {
    let real = || {
        let msg = OpaqueIpcMessage::new(bytes(Some(vec![8]), 80), ());
        Ok(vec![
            IpcSelectionResult::MessageReceived(3, msg),
            IpcSelectionResult::ChannelClosed(4),
        ])
    };
    set.select(thread, indices, &real, &|wire: &usize| wires.recv(*wire))
}

fn show(results: &[IpcSelectionResult<()>]) -> Vec<(u64, Option<Vec<u8>>)> {
    results
        .iter()
        .map(|r| match r {
            IpcSelectionResult::MessageReceived(i, m) => (*i, Some(m.data.clone())),
            IpcSelectionResult::ChannelClosed(i) => (*i, None),
        })
        .collect()
}

fn from(index: u64, sender: MaybeId) -> IpcSelectEvent {
    IpcSelectEvent::MessageReceived(index, sender)
}

fn wires(queues: Vec<(Vec<Vec<u8>>, bool)>) -> Wires {
    let queues = queues.into_iter().map(|(q, open)| (q.into(), open));
    Wires(RefCell::new(queues.collect()))
}

#[test]
fn keyed_set_is_recorded() {
    let empty = RecordedIndices::new();
    let none = wires(vec![]);
    let mut thread = context(RRMode::Record, DesyncMode::Panic);
    let mut set = WireSet::new(&thread);
    let (step, logged) = add(&mut set, &mut thread, &empty, 7);
    assert!(matches!(step, AddStep::Done(Ok(107))));
    assert_eq!(logged, Some(entry(0, Recorded::IpcSelectAdd(107), 7)));
    let (step, logged) = select(&mut set, &mut thread, &empty, &none);
    let expected = vec![(3, Some(bytes(Some(vec![8]), 80))), (4, None)];
    match step {
        IpcSelectStep::Done(r) => assert_eq!(show(&r.unwrap()), expected),
        _ => panic!("nothing selected"),
    }
    let events = vec![from(3, id(&[8])), IpcSelectEvent::ChannelClosed(4)];
    assert_eq!(logged, Some(select_entry(1, events)));
    let mut thread = context(RRMode::NoRR, DesyncMode::Panic);
    let mut set = WireSet::new(&thread);
    let (step, logged) = add(&mut set, &mut thread, &empty, 7);
    assert!(matches!(step, AddStep::Done(Ok(107))));
    assert!(logged.is_none());
    let (step, logged) = select(&mut set, &mut thread, &empty, &none);
    assert!(matches!(step, IpcSelectStep::Done(Ok(_))));
    assert!(logged.is_none());
}

#[test]
fn keyed_set_is_replayed() {
    let log = vec![
        entry(0, Recorded::IpcSelectAdd(0), 0),
        entry(1, Recorded::IpcSelectAdd(1), 1),
        select_entry(2, vec![from(1, MaybeId::none()), from(0, id(&[5]))]),
        select_entry(3, vec![from(1, id(&[5])), IpcSelectEvent::ChannelClosed(0)]),
    ];
    let indices = RecordedIndices::from_log(log).unwrap();
    let five = || Some(vec![5]);
    let wires = wires(vec![
        (vec![bytes(five(), 1)], false),
        (vec![bytes(five(), 2), bytes(None, 3)], true),
    ]);
    let mut thread = context(RRMode::Replay, DesyncMode::Panic);
    let mut set = WireSet::new(&thread);
    let (step, _) = add(&mut set, &mut thread, &indices, 0);
    assert!(matches!(step, AddStep::Done(Ok(0))));
    let (step, _) = add(&mut set, &mut thread, &indices, 1);
    assert!(matches!(step, AddStep::Done(Ok(1))));
    let mut next = || match select(&mut set, &mut thread, &indices, &wires).0 {
        IpcSelectStep::Done(r) => show(&r.unwrap()),
        _ => panic!("nothing selected"),
    };
    assert_eq!(
        next(),
        vec![(1, Some(bytes(None, 3))), (0, Some(bytes(five(), 1)))]
    );
    assert_eq!(next(), vec![(1, Some(bytes(five(), 2))), (0, None)]);
    assert_eq!(get_event_id(&thread), 4);
    let (step, _) = select(&mut set, &mut thread, &indices, &wires);
    assert!(matches!(step, IpcSelectStep::Park));
}

#[test]
fn keyed_additions_are_checked() {
    let refused = |event: Recorded, channel_id: u32| {
        let indices = RecordedIndices::from_log(vec![entry(0, event, channel_id)]).unwrap();
        let mut thread = context(RRMode::Replay, DesyncMode::Panic);
        let mut set = WireSet::new(&thread);
        match add(&mut set, &mut thread, &indices, 3).0 {
            AddStep::Panic(e) => e,
            _ => panic!("went on"),
        }
    };
    assert_eq!(
        refused(Recorded::IpcSelectAdd(0), 4),
        DesyncError::ChannelMismatch(chan(4), chan(3))
    );
    assert_eq!(
        refused(Recorded::IpcSelectAdd(2), 3),
        DesyncError::SelectIndexMismatch(2, 0)
    );
    assert_eq!(
        refused(Recorded::IpcSender, 3),
        DesyncError::EventMismatch(Recorded::IpcSender, Recorded::IpcSelectAdd(u64::MAX))
    );
}

#[test]
fn keyed_selects_are_checked() {
    let outcome = |events: Vec<IpcSelectEvent>, queue: Vec<Vec<u8>>, open: bool| {
        let log = vec![
            entry(0, Recorded::IpcSelectAdd(0), 0),
            select_entry(1, events),
        ];
        let indices = RecordedIndices::from_log(log).unwrap();
        let mut thread = context(RRMode::Replay, DesyncMode::Panic);
        let mut set = WireSet::new(&thread);
        add(&mut set, &mut thread, &indices, 0);
        select(&mut set, &mut thread, &indices, &wires(vec![(queue, open)])).0
    };
    let closed = || vec![IpcSelectEvent::ChannelClosed(0)];
    let message = || vec![bytes(None, 1)];
    assert!(matches!(
        outcome(vec![from(0, id(&[5]))], vec![], false),
        IpcSelectStep::Panic(DesyncError::ChannelClosedUnexpected(0))
    ));
    assert!(matches!(
        outcome(closed(), message(), true),
        IpcSelectStep::Panic(DesyncError::ChannelClosedExpected)
    ));
    assert!(matches!(
        outcome(closed(), vec![], true),
        IpcSelectStep::Broken(Broken::UnknownError)
    ));
    assert!(matches!(
        outcome(vec![from(0, id(&[5]))], message(), true),
        IpcSelectStep::Broken(Broken::UnknownError)
    ));
    assert!(matches!(
        outcome(vec![from(0, id(&[5]))], vec![vec![9]], true),
        IpcSelectStep::Broken(Broken::UnreadableSender)
    ));
    assert!(matches!(
        outcome(vec![from(6, id(&[5]))], message(), true),
        IpcSelectStep::Broken(Broken::MissingReceiver(6))
    ));
}

#[test]
fn keyed_set_gives_up_its_receivers_in_order() {
    let log = vec![
        entry(0, Recorded::IpcSelectAdd(0), 0),
        entry(1, Recorded::IpcSelectAdd(1), 1),
        select_entry(2, vec![IpcSelectEvent::ChannelClosed(1), from(0, id(&[5]))]),
    ];
    let indices = RecordedIndices::from_log(log).unwrap();
    let wires = wires(vec![(vec![bytes(None, 1)], false), (vec![], false)]);
    let mut thread = context(RRMode::Replay, DesyncMode::KeepGoing);
    let mut set = WireSet::new(&thread);
    add(&mut set, &mut thread, &indices, 0);
    add(&mut set, &mut thread, &indices, 1);
    match select(&mut set, &mut thread, &indices, &wires).0 {
        IpcSelectStep::Desync { to_move, entries } => {
            // Both channels were seen to be closed.
            assert_eq!(to_move.len(), 2);
            assert!(matches!(to_move[0], MovedReceiver::Dummy));
            assert!(matches!(to_move[1], MovedReceiver::Dummy));
            // The end that was replayed, the message that was kept, and what came instead of the
            // expected message.
            assert_eq!(
                show(&entries.unwrap()),
                vec![(1, None), (0, Some(bytes(None, 1))), (0, None)]
            );
        }
        _ => panic!("not desynchronized"),
    }
    assert!(thread.desynced);
    assert_eq!(get_event_id(&thread), 3);
    // Both channels that stand for closed ones have used up an id.
    assert_eq!(get_and_inc_channel_id(&mut thread), 2);
    match add(&mut set, &mut thread, &indices, 9).0 {
        AddStep::Desync { to_move, receiver } => {
            assert!(to_move.is_empty());
            assert_eq!(receiver, 9);
        }
        _ => panic!("not desynchronized"),
    }
}
