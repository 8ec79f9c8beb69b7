//! A router between two sending threads and the main thread, replayed from a log.

use rr_channel::crossbeam::{unbounded, Receiver, Sender};
use rr_channel::desync::{DesyncMode, Step};
use rr_channel::detthread::{initialize_new_thread, Builder, DetThreadId, ThreadState};
use rr_channel::error::{RecvErrorDef, SendError};
use rr_channel::global_log::{Entries, GlobalReplayer};
use rr_channel::ipc::{self, IpcReceiver, IpcSender, OpaqueIpcReceiver};
use rr_channel::ipc_message::{Attempt, IpcSelectionResult, OpaqueIpcMessage};
use rr_channel::ipc_set::{AddStep, IpcReceiverSet, IpcSelectStep};
use rr_channel::recordlog::{ChannelVariant, IpcSelectEvent, RecordEntry, TivoEvent};
use rr_channel::router::{Router, RouterMsg, RouterProxyComm, RouterStep};
use rr_channel::rr::DetChannelId;
use rr_channel::send::SendStep;
use rr_channel::{EventRecorder, RRMode, Tivo};
use std::cell::RefCell;
use std::collections::VecDeque;

/// The bytes in flight on each inter-process channel.
type Wires = Vec<RefCell<VecDeque<Vec<u8>>>>;

fn encode(id: &DetThreadId, payload: (i32, i32)) -> Vec<u8> {
    let mut numbers = [0u32; 10];
    numbers[..id.as_slice().len()].copy_from_slice(id.as_slice());
    bincode::serialize(&((numbers, id.as_slice().len() as u64), payload)).unwrap()
}

fn decode(data: &[u8]) -> (i32, i32) {
    let (_, payload): (([u32; 10], u64), (i32, i32)) = bincode::deserialize(data).unwrap();
    payload
}

fn ipc_send(
    sender: &IpcSender,
    thread: &mut ThreadState,
    wire: &RefCell<VecDeque<Vec<u8>>>,
    payload: (i32, i32),
) {
    let send = |id: DetThreadId, data: (i32, i32)| -> Result<(), ()> {
        wire.borrow_mut().push_back(encode(&id, data));
        Ok(())
    };
    match sender.send(thread, payload, &send) {
        SendStep::Done(r) => r.unwrap(),
        _ => panic!("not sent"),
    }
}

fn sent<T>(step: SendStep<T, SendError<T>>) {
    match step {
        SendStep::Done(Ok(())) => {}
        SendStep::Panic(e) => panic!("{:?}", e),
        _ => panic!("not sent"),
    }
}

fn received<T>(step: Step<Result<T, RecvErrorDef>>) -> T {
    match step {
        Step::Done(r) => r.unwrap(),
        Step::Sleep => panic!("asleep"),
        Step::Panic(e) => panic!("{:?}", e),
    }
}

fn added(step: AddStep<usize, ()>) -> u64 {
    match step {
        AddStep::Done(r) => r.unwrap(),
        AddStep::Panic(e) => panic!("{:?}", e),
        AddStep::Desync { .. } => panic!("desynchronized"),
    }
}

fn no_real_add(_: usize) -> Result<u64, ()> {
    panic!("the real set is not used while replaying")
}

fn no_real_select() -> Result<Vec<IpcSelectionResult<()>>, ()> {
    panic!("the real set is not used while replaying")
}

fn selected(
    set: &mut IpcReceiverSet<usize, ()>,
    thread: &mut ThreadState,
    wires: &Wires,
) -> Vec<IpcSelectionResult<()>> {
    let try_recv = |wire: &usize| match wires[*wire].borrow_mut().pop_front() {
        Some(data) => Attempt::Message(OpaqueIpcMessage::new(data, ())),
        None => Attempt::Failed,
    };
    match set.select(thread, &no_real_select, &try_recv, &|| {}) {
        IpcSelectStep::Done(r) => r.unwrap(),
        IpcSelectStep::Panic(e) => panic!("{:?}", e),
        _ => panic!("nothing selected"),
    }
}

fn child(parent: &mut ThreadState, replayer: &mut GlobalReplayer) -> ThreadState {
    let spawned = Builder::new().spawn(parent).unwrap();
    let entries = replayer.take_entry(&spawned.id);
    let mut thread = ThreadState::new(
        RRMode::Replay,
        DesyncMode::Panic,
        EventRecorder::replaying(entries),
    );
    initialize_new_thread(&mut thread, spawned.id);
    thread
}

type Msg = RouterMsg<OpaqueIpcReceiver<usize>, Sender<(i32, i32)>, Sender<()>>;

/// Handles messages until the router is told to shut down, or there are none left.
fn run_router(
    router: &mut Router<Sender<(i32, i32)>>,
    set: &mut IpcReceiverSet<usize, ()>,
    msg_receiver: &mut Receiver<Msg>,
    thread: &mut ThreadState,
    wires: &Wires,
    selects: usize,
) -> bool {
    for _ in 0..selects {
        for result in selected(set, thread, wires) {
            match router.route(result) {
                RouterStep::WakeUp => match received(msg_receiver.recv(thread)) {
                    RouterMsg::AddRoute(receiver, handler) => {
                        let id = added(set.add_opaque(thread, receiver, &no_real_add));
                        router.add_handler(id, handler);
                    }
                    RouterMsg::Shutdown(ack) => {
                        sent(ack.send(thread, ()));
                        return true;
                    }
                },
                RouterStep::Handle(id, handler, msg) => {
                    sent(handler.send(thread, decode(&msg.data)));
                    router.add_handler(id, handler);
                }
                RouterStep::Closed(_) => {}
                RouterStep::NoHandler(id) => panic!("no handler for {}", id),
            }
        }
    }
    false
}

fn route_ipc_receiver_to_new_crossbeam_receiver_mpsc(
    main: &mut ThreadState,
    replayer: &mut GlobalReplayer,
    iters: i32,
) -> Vec<(i32, i32)> {
    let name = || "i32".to_string();
    let wires: Wires = vec![RefCell::default(), RefCell::default()];
    let (wakeup_wire, data_wire) = (0, 1);

    // The router.
    let mut comm = RouterProxyComm::new();
    let (msg_sender, mut msg_receiver): (Sender<Msg>, Receiver<Msg>) =
        unbounded(main, name()).unwrap();
    let (wakeup_sender, wakeup_receiver): (IpcSender, IpcReceiver<()>) =
        ipc::channel(main, name()).unwrap();
    let mut router_thread = child(main, replayer);
    let mut set: IpcReceiverSet<usize, ()> = IpcReceiverSet::new(&router_thread);
    let wakeup_id = added(set.add(
        &mut router_thread,
        wakeup_receiver,
        wakeup_wire,
        &no_real_add,
    ));
    let mut router = Router::new(wakeup_id);

    // A new route.
    let (s, r): (IpcSender, IpcReceiver<(i32, i32)>) = ipc::channel(main, name()).unwrap();
    let (route_sender, mut cr): (Sender<(i32, i32)>, Receiver<(i32, i32)>) =
        unbounded(main, name()).unwrap();
    let route = RouterMsg::AddRoute(r.to_opaque(data_wire), route_sender);
    sent(msg_sender.send(main, route));
    ipc_send(&wakeup_sender, main, &wires[wakeup_wire], (0, 0));

    // Both threads send all their messages. Those of the first thread come first.
    let mut thread1 = child(main, replayer);
    let mut thread2 = child(main, replayer);
    let s1 = s.clone(&thread1);
    for i in 0..iters {
        ipc_send(&s1, &mut thread1, &wires[data_wire], (1, i));
    }
    for j in 0..iters {
        ipc_send(&s, &mut thread2, &wires[data_wire], (2, j));
    }

    let mut run = |router_thread: &mut ThreadState, selects: usize| {
        run_router(
            &mut router,
            &mut set,
            &mut msg_receiver,
            router_thread,
            &wires,
            selects,
        )
    };
    assert!(!run(&mut router_thread, 1 + 2 * iters as usize));
    let v: Vec<(i32, i32)> = (0..iters * 2).map(|_| received(cr.recv(main))).collect();

    // The shutdown.
    assert!(comm.shutdown());
    let (ack_sender, mut ack_receiver): (Sender<()>, Receiver<()>) = unbounded(main, name()).unwrap();
    ipc_send(&wakeup_sender, main, &wires[wakeup_wire], (0, 0));
    sent(msg_sender.send(main, RouterMsg::Shutdown(ack_sender)));
    assert!(run(&mut router_thread, 1));
    received(ack_receiver.recv(main));
    // Nothing more is to be done the second time.
    assert!(!comm.shutdown());

    for thread in [main, &mut router_thread, &mut thread1, &mut thread2] {
        assert_eq!(thread.recorder.entries_left(), 0);
    }
    v
}

/// All messages arrive from T2 before any message arrives from T1.
fn get_manual_recordlog(iters: i32) -> Entries {
    let main_thread = DetThreadId::from(&[]);
    let router_thread = DetThreadId::from(&[1]);
    let thread1 = DetThreadId::from(&[2]);
    let thread2 = DetThreadId::from(&[3]);
    let tn = "i32".to_string();

    // Channel passed to router to recv messages from.
    let router_main_interface = DetChannelId::from_raw(main_thread.clone(), 1);
    // Internal router channel.
    let internal_router_channels = DetChannelId::from_raw(main_thread.clone(), 2);
    // Channel we use to send new messages to the router. Used by T1 and T2.
    let threads_sender = DetChannelId::from_raw(main_thread.clone(), 3);
    // Channel used by main thread to read messages.
    let main_recv = DetChannelId::from_raw(main_thread.clone(), 4);
    let shutdown_ack = DetChannelId::from_raw(main_thread.clone(), 5);

    let mut imr1 = VecDeque::new();
    let mut imr2 = VecDeque::new();
    let mut main_thread_imr = VecDeque::new();
    let mut router_thread_imr = VecDeque::new();

    let cb_sender = RecordEntry::new(
        TivoEvent::CrossbeamSender,
        ChannelVariant::CbUnbounded,
        router_main_interface.clone(),
        tn.clone(),
    );
    main_thread_imr.push_back(RecordEntry::new(
        TivoEvent::ThreadInitialized(router_thread.clone()),
        ChannelVariant::NoChannel,
        DetChannelId::fake(),
        "Thread".to_string(),
    ));
    main_thread_imr.push_back(cb_sender.clone());
    // Router sends messages when routes are added to it!
    main_thread_imr.push_back(RecordEntry::new(
        TivoEvent::IpcSender,
        ChannelVariant::Ipc,
        internal_router_channels.clone(),
        tn.clone(),
    ));

    // The router's internal selector.
    router_thread_imr.push_back(RecordEntry::new(
        TivoEvent::IpcSelectAdd(0),
        ChannelVariant::Ipc,
        internal_router_channels.clone(),
        tn.clone(),
    ));
    let select = RecordEntry::new(
        TivoEvent::IpcSelect {
            select_events: vec![IpcSelectEvent::MessageReceived(0, main_thread.clone())],
        },
        ChannelVariant::Ipc,
        router_main_interface.clone(),
        tn.clone(),
    );
    router_thread_imr.push_back(select.clone());
    router_thread_imr.push_back(RecordEntry::new(
        TivoEvent::CrossbeamRecvSucc {
            sender_thread: main_thread.clone(),
        },
        ChannelVariant::CbUnbounded,
        router_main_interface.clone(),
        tn.clone(),
    ));
    // New route added to router, added to IpcSelect.
    router_thread_imr.push_back(RecordEntry::new(
        TivoEvent::IpcSelectAdd(1),
        ChannelVariant::Ipc,
        threads_sender.clone(),
        tn.clone(),
    ));

    // Router selects and forwards messages: first those of T2, then those of T1.
    for thread in [&thread2, &thread1] {
        for _ in 0..iters {
            router_thread_imr.push_back(RecordEntry::new(
                TivoEvent::IpcSelect {
                    select_events: vec![IpcSelectEvent::MessageReceived(1, thread.clone())],
                },
                ChannelVariant::Ipc,
                router_main_interface.clone(),
                tn.clone(),
            ));
            router_thread_imr.push_back(RecordEntry {
                chan_id: main_recv.clone(),
                ..cb_sender.clone()
            });
        }
    }

    for thread in [&thread1, &thread2] {
        main_thread_imr.push_back(RecordEntry::new(
            TivoEvent::ThreadInitialized(thread.clone()),
            ChannelVariant::NoChannel,
            DetChannelId::fake(),
            "Thread".to_string(),
        ));
    }

    // Main thread reads messages from router.
    for _ in 0..2 * iters {
        main_thread_imr.push_back(RecordEntry::new(
            TivoEvent::CrossbeamRecvSucc {
                sender_thread: router_thread.clone(),
            },
            ChannelVariant::CbUnbounded,
            main_recv.clone(),
            tn.clone(),
        ));
    }

    // Two threads continuously send messages to Router.
    let ipc_sender = RecordEntry::new(
        TivoEvent::IpcSender,
        ChannelVariant::Ipc,
        threads_sender.clone(),
        tn.clone(),
    );
    for _ in 0..iters {
        imr1.push_back(ipc_sender.clone());
        imr2.push_back(ipc_sender.clone());
    }

    // Send message to router to wake up.
    main_thread_imr.push_back(RecordEntry {
        chan_id: internal_router_channels.clone(),
        ..ipc_sender
    });
    // Send message to router to send Shutdown message.
    main_thread_imr.push_back(cb_sender.clone());
    // Ack back from Router.
    main_thread_imr.push_back(RecordEntry::new(
        TivoEvent::CrossbeamRecvSucc {
            sender_thread: router_thread.clone(),
        },
        ChannelVariant::CbUnbounded,
        shutdown_ack.clone(),
        tn.clone(),
    ));

    // Shutdown signal arrives
    router_thread_imr.push_back(select.clone());
    // Shutdown event read from channel.
    router_thread_imr.push_back(RecordEntry::new(
        TivoEvent::CrossbeamRecvSucc {
            sender_thread: main_thread.clone(),
        },
        ChannelVariant::CbUnbounded,
        router_main_interface.clone(),
        tn.clone(),
    ));
    // Send back shutdown ack.
    router_thread_imr.push_back(RecordEntry {
        chan_id: shutdown_ack,
        ..cb_sender
    });

    let mut manual_recordlog = Entries::new();
    manual_recordlog.insert(thread1, imr1);
    manual_recordlog.insert(thread2, imr2);
    manual_recordlog.insert(main_thread, main_thread_imr);
    manual_recordlog.insert(router_thread, router_thread_imr);
    manual_recordlog
}

#[test]
fn router_manual_recordlog_test() {
    let iters: i32 = 1_000;
    let mut replayer = GlobalReplayer::init_from(get_manual_recordlog(iters));
    let entries = replayer.take_entry(&DetThreadId::new());
    let mut main = ThreadState::new(
        RRMode::Replay,
        DesyncMode::Panic,
        EventRecorder::replaying(entries),
    );
    Tivo::init_tivo_thread_root_test(&mut main);

    let results =
        route_ipc_receiver_to_new_crossbeam_receiver_mpsc(&mut main, &mut replayer, iters);
    let mut refv = vec![];
    for i in 0..iters {
        refv.push((2, i));
    }
    for i in 0..iters {
        refv.push((1, i));
    }

    assert_eq!(results, refv);
}

#[test]
fn router_decisions() {
    let mut router: Router<char> = Router::new(0);
    router.add_handler(1, 'a');
    router.add_handler(2, 'b');
    let msg = || OpaqueIpcMessage::new(vec![9], ());
    let message = |id: u64| IpcSelectionResult::MessageReceived(id, msg());
    assert!(matches!(router.route(message(0)), RouterStep::WakeUp));
    match router.route(message(2)) {
        RouterStep::Handle(2, 'b', m) => {
            assert_eq!(m.data, vec![9]);
            router.add_handler(2, 'b');
        }
        _ => panic!("not handled"),
    }
    assert_eq!(router.len(), 2);
    assert!(matches!(router.route(message(3)), RouterStep::NoHandler(3)));
    let closed = |id: u64| IpcSelectionResult::<()>::ChannelClosed(id);
    assert!(matches!(router.route(closed(1)), RouterStep::Closed(1)));
    assert!(matches!(router.route(closed(1)), RouterStep::NoHandler(1)));
    assert!(matches!(router.route(closed(0)), RouterStep::NoHandler(0)));
    assert_eq!(router.len(), 1);
}
