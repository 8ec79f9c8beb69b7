//! Selects over crossbeam channels.

use rr_channel::crossbeam::{unbounded, ChannelKind, Receiver, Sender};
use rr_channel::crossbeam_select::{
    BufferedReceiver, Candidates, Select, SelectedMessage, SelectedOperation, SelectedOperationImpl,
};
use rr_channel::desync::{DesyncMode, Step};
use rr_channel::detthread::{DetThreadId, ThreadState};
use rr_channel::error::{DesyncError, RecvErrorDef};
use rr_channel::global_log::GlobalRecorder;
use rr_channel::recordlog::{ChannelVariant, RecordEntry, SelectEvent, TivoEvent};
use rr_channel::rr::DetChannelId;
use rr_channel::{EventRecorder, RRMode, Tivo};
use std::cell::RefCell;
use std::collections::VecDeque;

fn root(mode: RRMode, desync_mode: DesyncMode, recorder: EventRecorder) -> ThreadState {
    let mut thread = ThreadState::new(mode, desync_mode, recorder);
    Tivo::init_tivo_thread_root_test(&mut thread);
    thread
}

fn channel(thread: &mut ThreadState) -> (Sender<i32>, Receiver<i32>) {
    unbounded(thread, "i32".to_string()).unwrap()
}

fn entry(event: SelectEvent, channel: u32) -> RecordEntry {
    RecordEntry::new(
        TivoEvent::CrossbeamSelect(event),
        ChannelVariant::CbUnbounded,
        DetChannelId::from_raw(DetThreadId::new(), channel),
        "i32".to_string(),
    )
}

fn creation(channel: u32) -> RecordEntry {
    RecordEntry {
        event: TivoEvent::ChannelCreation,
        ..entry(success(0, 0), channel)
    }
}

fn success(sender: u32, selected_index: usize) -> SelectEvent {
    SelectEvent::Success {
        sender_thread: DetThreadId::from(&[sender]),
        selected_index,
    }
}

/// A select over two receivers. The real operation is the index of the receiver it was made for.
fn run_select(
    thread: &mut ThreadState,
    receivers: &RefCell<[Receiver<i32>; 2]>,
    real: usize,
) -> Step<SelectedOperation<usize>> {
    let mut select = Candidates::new(thread);
    assert_eq!(select.recv(0), 0);
    assert_eq!(select.recv(1), 1);
    let snapshot = ThreadState::new(
        thread.mode,
        thread.desync_mode,
        EventRecorder::get_global_recorder(),
    );
    let mut snapshot = snapshot;
    snapshot.initialized = true;
    let poll = |index: usize, sender: DetThreadId| {
        receivers.borrow_mut()[index].poll(&snapshot, &sender)
    };
    let buffered = |index: usize| receivers.borrow()[index].buffered_value();
    select.select(thread, &|| (real, real), &poll, &buffered)
}

/// Completes an operation on the receiver at its index.
fn complete(
    thread: &mut ThreadState,
    receivers: &RefCell<[Receiver<i32>; 2]>,
    op: SelectedOperation<usize>,
    at: usize,
) -> Step<Result<i32, RecvErrorDef>> {
    let mut receivers = receivers.borrow_mut();
    let real = match &receivers[at].receiver {
        ChannelKind::Unbounded(r) => r.clone(),
        _ => panic!("another kind of channel"),
    };
    let finish = |_: usize| SelectedMessage::Tagged(real.recv().map_err(|_| RecvErrorDef {}));
    op.recv(thread, &mut receivers[at], &finish)
}

fn done<V>(step: Step<V>) -> V {
    match step {
        Step::Done(v) => v,
        Step::Sleep => panic!("asleep"),
        Step::Panic(e) => panic!("{:?}", e),
    }
}

fn gave_up<V>(step: Step<V>) -> DesyncError {
    match step {
        Step::Panic(e) => e,
        _ => panic!("went on"),
    }
}

#[test]
fn selects_are_recorded() {
    let mut recorder = GlobalRecorder::init_no_file();
    let log = recorder.start_thread(DetThreadId::new());
    let mut thread = root(RRMode::Record, DesyncMode::Panic, log);
    let (_s1, r1) = channel(&mut thread);
    let (s2, r2) = channel(&mut thread);
    let receivers = RefCell::new([r1, r2]);
    s2.underlying_send(DetThreadId::from(&[4]), 44).unwrap();
    let op = done(run_select(&mut thread, &receivers, 1));
    assert_eq!(op.index(), 1);
    assert_eq!(done(complete(&mut thread, &receivers, op, 1)), Ok(44));
    drop(s2);
    let op = done(run_select(&mut thread, &receivers, 1));
    assert_eq!(done(complete(&mut thread, &receivers, op, 1)), Err(RecvErrorDef {}));
    let entries = recorder.get_all_entries();
    let expected = VecDeque::from(vec![
        creation(1),
        creation(2),
        entry(success(4, 1), 2),
        entry(SelectEvent::RecvError { selected_index: 1 }, 2),
    ]);
    assert_eq!(entries.get(&DetThreadId::new()), Some(&expected));
}

#[test]
fn selects_are_replayed() {
    let log = VecDeque::from(vec![
        entry(success(4, 1), 2),
        entry(success(3, 0), 1),
        entry(SelectEvent::RecvError { selected_index: 1 }, 2),
    ]);
    let mut thread = root(
        RRMode::Replay,
        DesyncMode::Panic,
        EventRecorder::replaying(log),
    );
    let (s1, r1) = channel(&mut thread);
    let (s2, r2) = channel(&mut thread);
    let receivers = RefCell::new([r1, r2]);
    s1.underlying_send(DetThreadId::from(&[3]), 33).unwrap();
    s2.underlying_send(DetThreadId::from(&[5]), 55).unwrap();
    s2.underlying_send(DetThreadId::from(&[4]), 44).unwrap();
    // The real select would choose the first receiver.
    let op = done(run_select(&mut thread, &receivers, 0));
    assert_eq!(op.index(), 1);
    assert_eq!(done(complete(&mut thread, &receivers, op, 1)), Ok(44));
    let op = done(run_select(&mut thread, &receivers, 1));
    assert_eq!(op.index(), 0);
    assert_eq!(done(complete(&mut thread, &receivers, op, 0)), Ok(33));
    let op = done(run_select(&mut thread, &receivers, 0));
    assert_eq!(op.index(), 1);
    assert_eq!(done(complete(&mut thread, &receivers, op, 1)), Err(RecvErrorDef {}));
    assert!(matches!(run_select(&mut thread, &receivers, 0), Step::Sleep));
}

#[test]
fn select_passthrough() {
    let mut thread = root(
        RRMode::NoRR,
        DesyncMode::Panic,
        EventRecorder::get_global_recorder(),
    );
    let (s1, r1) = channel(&mut thread);
    let (_s2, r2) = channel(&mut thread);
    let receivers = RefCell::new([r1, r2]);
    s1.underlying_send(DetThreadId::from(&[3]), 33).unwrap();
    let op = done(run_select(&mut thread, &receivers, 0));
    assert_eq!(done(complete(&mut thread, &receivers, op, 0)), Ok(33));
}

fn replay_one(entry: RecordEntry, desync_mode: DesyncMode) -> ThreadState {
    root(
        RRMode::Replay,
        desync_mode,
        EventRecorder::replaying(VecDeque::from(vec![entry])),
    )
}

#[test]
fn select_mismatches() {
    // The message that was recorded does not come.
    let mut thread = replay_one(entry(success(4, 1), 2), DesyncMode::Panic);
    let receivers = RefCell::new([channel(&mut thread).1, {
        let (s, r) = channel(&mut thread);
        std::mem::forget(s);
        r
    }]);
    assert_eq!(
        gave_up(run_select(&mut thread, &receivers, 0)),
        DesyncError::Timeout(None)
    );
    // The channel is disconnected: also when keeping going.
    let mut thread = replay_one(entry(success(4, 0), 1), DesyncMode::KeepGoing);
    assert_eq!(
        gave_up(run_select(&mut thread, &receivers, 0)),
        DesyncError::Disconnected
    );
    // There is no such receiver.
    let mut thread = replay_one(entry(success(4, 2), 1), DesyncMode::Panic);
    assert_eq!(
        gave_up(run_select(&mut thread, &receivers, 0)),
        DesyncError::MissingReceiver(2)
    );
    // Another event.
    let other = RecordEntry {
        event: TivoEvent::CrossbeamSender,
        ..entry(success(4, 1), 1)
    };
    let mut thread = replay_one(other, DesyncMode::Panic);
    let dummy = SelectEvent::Success {
        sender_thread: DetThreadId::new(),
        selected_index: usize::MAX,
    };
    assert_eq!(
        gave_up(run_select(&mut thread, &receivers, 0)),
        DesyncError::EventMismatch(
            TivoEvent::CrossbeamSender,
            TivoEvent::CrossbeamSelect(dummy)
        )
    );
    // A desynchronized thread.
    thread.desynced = true;
    assert_eq!(
        gave_up(run_select(&mut thread, &receivers, 0)),
        DesyncError::Desynchronized
    );
}

#[test]
fn completion_on_another_channel_is_fatal() {
    let id = |channel: u32| DetChannelId::from_raw(DetThreadId::new(), channel);
    let closed = SelectEvent::RecvError { selected_index: 0 };
    let mut thread = replay_one(entry(closed.clone(), 1), DesyncMode::KeepGoing);
    let receivers = RefCell::new([channel(&mut thread).1, channel(&mut thread).1]);
    let op = done(run_select(&mut thread, &receivers, 0));
    assert_eq!(
        gave_up(complete(&mut thread, &receivers, op, 1)),
        DesyncError::ChannelMismatch(id(1), id(2))
    );
    let other = RecordEntry {
        channel_variant: ChannelVariant::CbBounded,
        ..entry(closed, 1)
    };
    let mut thread = replay_one(other, DesyncMode::KeepGoing);
    let op = done(run_select(&mut thread, &receivers, 0));
    assert_eq!(
        gave_up(complete(&mut thread, &receivers, op, 0)),
        DesyncError::ChannelVariantMismatch(
            ChannelVariant::CbBounded,
            ChannelVariant::CbUnbounded
        )
    );
}

#[test]
fn select_goes_on_after_a_desynchronization() {
    let mut thread = replay_one(entry(success(4, 1), 2), DesyncMode::KeepGoing);
    let (s1, r1) = channel(&mut thread);
    let (s2, r2) = channel(&mut thread);
    let receivers = RefCell::new([r1, r2]);
    s1.underlying_send(DetThreadId::from(&[3]), 33).unwrap();
    s2.underlying_send(DetThreadId::from(&[5]), 55).unwrap();
    // The message from the other thread was kept while polling.
    let op = done(run_select(&mut thread, &receivers, 0));
    assert!(thread.desynced);
    assert!(matches!(op.inner, SelectedOperationImpl::DesyncBufferEntry(1)));
    assert_eq!(op.index(), 1);
    assert_eq!(done(complete(&mut thread, &receivers, op, 1)), Ok(55));
    // Nothing is kept any more: the real select decides.
    let op = done(run_select(&mut thread, &receivers, 0));
    assert!(matches!(op.inner, SelectedOperationImpl::Desync(0, 0)));
    assert_eq!(done(complete(&mut thread, &receivers, op, 0)), Ok(33));
    let select = Candidates::new(&thread);
    let step = select.select_after_wakeup(&mut thread, &|| (7usize, 'x'), &|_: usize| true);
    assert!(matches!(done(step).inner, SelectedOperationImpl::Desync(7, 'x')));
}

#[test]
fn plain_messages_come_from_the_thread_itself() {
    let mut recorder = GlobalRecorder::init_no_file();
    let log = recorder.start_thread(DetThreadId::new());
    let mut thread = root(RRMode::Record, DesyncMode::Panic, log);
    let (_s, mut r) = channel(&mut thread);
    let op = SelectedOperation::new(SelectedOperationImpl::Record(0, 0usize));
    let finish = |_: usize| SelectedMessage::Plain(Ok(6));
    let got = op.recv(&mut thread, &mut r, &finish);
    assert_eq!(done(got), Ok(6));
    let event = SelectEvent::Success {
        sender_thread: DetThreadId::new(),
        selected_index: 0,
    };
    let entries = recorder.get_all_entries();
    let expected = VecDeque::from(vec![creation(1), entry(event, 1)]);
    assert_eq!(entries.get(&DetThreadId::new()), Some(&expected));
}

fn ready_entry(select_index: usize) -> RecordEntry {
    RecordEntry::new(
        TivoEvent::CrossbeamSelectReady { select_index },
        ChannelVariant::NoChannel,
        DetChannelId::fake(),
        "ready".to_string(),
    )
}

#[test]
fn ready_in_all_modes() {
    let mut recorder = GlobalRecorder::init_no_file();
    let log = recorder.start_thread(DetThreadId::new());
    let mut thread = root(RRMode::Record, DesyncMode::Panic, log);
    assert_eq!(done(Candidates::new(&thread).ready(&mut thread, &|| 3)), 3);
    let entries = recorder.get_all_entries();
    let expected = VecDeque::from(vec![ready_entry(3)]);
    assert_eq!(entries.get(&DetThreadId::new()), Some(&expected));

    let log = VecDeque::from(vec![ready_entry(3), entry(success(1, 1), 1)]);
    let mut thread = root(
        RRMode::Replay,
        DesyncMode::Panic,
        EventRecorder::replaying(log),
    );
    let select = Candidates::new(&thread);
    assert_eq!(done(select.ready(&mut thread, &|| 5)), 3);
    assert_eq!(
        gave_up(select.ready(&mut thread, &|| 5)),
        DesyncError::EventMismatch(
            TivoEvent::CrossbeamSelect(success(1, 1)),
            TivoEvent::CrossbeamSelectReady { select_index: 0 }
        )
    );
    thread.desync_mode = DesyncMode::KeepGoing;
    assert_eq!(done(select.ready(&mut thread, &|| 5)), 5);
    assert!(thread.desynced);
    thread.mode = RRMode::NoRR;
    thread.desynced = false;
    assert_eq!(done(Candidates::new(&thread).ready(&mut thread, &|| 8)), 8);
}

/// A second handle to the receiving end of a channel.
fn end(receiver: &Receiver<i32>) -> ChannelKind<i32> {
    match &receiver.receiver {
        ChannelKind::Unbounded(r) => ChannelKind::Unbounded(r.clone()),
        _ => panic!("another kind of channel"),
    }
}

fn unused_poll(_: usize, _: DetThreadId) -> Result<bool, DesyncError> {
    panic!("nothing is polled")
}

#[test]
fn select_is_made_on_the_channels() {
    let mut recorder = GlobalRecorder::init_no_file();
    let log = recorder.start_thread(DetThreadId::new());
    let mut thread = root(RRMode::Record, DesyncMode::Panic, log);
    let (_s1, r1) = channel(&mut thread);
    let (s2, mut r2) = channel(&mut thread);
    let (end1, end2) = (end(&r1), end(&r2));
    s2.underlying_send(DetThreadId::from(&[4]), 44).unwrap();
    let mut select = Select::new(&thread);
    assert_eq!(select.recv(&end1), 0);
    assert_eq!(select.recv(&end2), 1);
    assert_eq!(done(select.ready(&mut thread)), 1);
    let op = done(select.select(&mut thread, &unused_poll, &|_: usize| false));
    assert_eq!(op.index(), 1);
    let real = match &end2 {
        ChannelKind::Unbounded(r) => r,
        _ => panic!("another kind of channel"),
    };
    let got = op.recv(
        &mut thread,
        &mut r2,
        &|op: ::crossbeam_channel::SelectedOperation| {
            SelectedMessage::Tagged(op.recv(real).map_err(|_| RecvErrorDef {}))
        },
    );
    assert_eq!(done(got), Ok(44));
    let entries = recorder.get_all_entries();
    let expected = VecDeque::from(vec![
        creation(1),
        creation(2),
        ready_entry(1),
        entry(success(4, 1), 2),
    ]);
    assert_eq!(entries.get(&DetThreadId::new()), Some(&expected));
}

#[test]
fn select_without_receivers_follows_the_log() {
    let closed = SelectEvent::RecvError { selected_index: 3 };
    let mut thread = replay_one(entry(closed, 1), DesyncMode::KeepGoing);
    let select = Select::new(&thread);
    let op = done(select.select(&mut thread, &unused_poll, &|_: usize| false));
    assert_eq!(op.index(), 3);
    assert!(matches!(
        select.select(&mut thread, &unused_poll, &|_: usize| false),
        Step::Sleep
    ));
}

#[test]
fn select_on_channels_after_a_desynchronization() {
    let mut thread = replay_one(entry(success(4, 0), 1), DesyncMode::KeepGoing);
    thread.desynced = true;
    let (s1, mut r1) = channel(&mut thread);
    let end1 = end(&r1);
    let real = match &end1 {
        ChannelKind::Unbounded(r) => r,
        _ => panic!("another kind of channel"),
    };
    let mut select = Select::new(&thread);
    assert_eq!(select.recv(&end1), 0);
    s1.underlying_send(DetThreadId::from(&[3]), 33).unwrap();
    assert_eq!(done(select.ready(&mut thread)), 0);
    let kept = done(select.select_after_wakeup(&mut thread, &|_: usize| true));
    assert!(matches!(kept.inner, SelectedOperationImpl::DesyncBufferEntry(0)));
    let op = done(select.select(&mut thread, &unused_poll, &|_: usize| false));
    assert!(matches!(op.inner, SelectedOperationImpl::Desync(0, _)));
    let got = op.recv(
        &mut thread,
        &mut r1,
        &|op: ::crossbeam_channel::SelectedOperation| {
            SelectedMessage::Tagged(op.recv(real).map_err(|_| RecvErrorDef {}))
        },
    );
    assert_eq!(done(got), Ok(33));
}

#[test]
fn sends_are_numbered_with_receives() {
    let mut recorder = GlobalRecorder::init_no_file();
    let log = recorder.start_thread(DetThreadId::new());
    let mut thread = root(RRMode::Record, DesyncMode::Panic, log);
    let (s1, r1) = channel(&mut thread);
    let (_s2, r2) = channel(&mut thread);
    let (end1, end2) = (end(&r1), end(&r2));
    let mut select = Select::new(&thread);
    assert_eq!(select.recv(&end2), 0);
    assert_eq!(select.send(&s1), 1);
    assert_eq!(select.recv(&end1), 2);
    assert_eq!(select.candidates.receivers, vec![0, 2]);
    // The channel has room for a message.
    assert_eq!(done(select.ready(&mut thread)), 1);
}

#[test]
fn selects_that_come_to_the_channels() {
    let closed = SelectEvent::RecvError { selected_index: 3 };
    let mut thread = replay_one(entry(closed, 1), DesyncMode::KeepGoing);
    let select = Select::new(&thread);
    assert!(!select.may_select(&thread));
    assert!(select.may_ask(&thread));
    thread.desynced = true;
    assert!(select.may_select(&thread));
    thread.desync_mode = DesyncMode::Panic;
    assert!(!select.may_select(&thread));
    assert!(!select.may_ask(&thread));
    let thread = replay_one(ready_entry(1), DesyncMode::KeepGoing);
    assert!(select.may_select(&thread));
    assert!(!select.may_ask(&thread));
    let thread = root(
        RRMode::NoRR,
        DesyncMode::Panic,
        EventRecorder::get_global_recorder(),
    );
    assert!(Select::new(&thread).may_select(&thread));
}

#[test]
fn selects_and_receives_are_replayed_over_one_log() {
    let received = |sender: u32, channel: u32| RecordEntry {
        event: TivoEvent::CrossbeamRecvSucc {
            sender_thread: DetThreadId::from(&[sender]),
        },
        ..entry(success(0, 0), channel)
    };
    let log = VecDeque::from(vec![
        entry(success(4, 1), 2),
        received(5, 2),
        entry(success(4, 1), 2),
        received(3, 1),
        entry(success(5, 1), 2),
    ]);
    let mut thread = root(
        RRMode::Replay,
        DesyncMode::Panic,
        EventRecorder::replaying(log),
    );
    let (s1, r1) = channel(&mut thread);
    let (s2, r2) = channel(&mut thread);
    let receivers = RefCell::new([r1, r2]);
    s1.underlying_send(DetThreadId::from(&[3]), 33).unwrap();
    for (sender, msg) in [(5, 51), (5, 52), (4, 41), (4, 42)] {
        s2.underlying_send(DetThreadId::from(&[sender]), msg).unwrap();
    }
    // The message has to be taken off the channel to find out whether it is there.
    let op = done(run_select(&mut thread, &receivers, 0));
    assert_eq!(done(complete(&mut thread, &receivers, op, 1)), Ok(41));
    assert_eq!(done(receivers.borrow_mut()[1].recv(&mut thread)), Ok(51));
    let op = done(run_select(&mut thread, &receivers, 0));
    assert_eq!(done(complete(&mut thread, &receivers, op, 1)), Ok(42));
    assert_eq!(done(receivers.borrow_mut()[0].recv(&mut thread)), Ok(33));
    let op = done(run_select(&mut thread, &receivers, 0));
    assert_eq!(done(complete(&mut thread, &receivers, op, 1)), Ok(52));
    assert_eq!(thread.recorder.entries_left(), 0);
}
