//! Channel ids, and waiting for messages from one sender.

use rr_channel::desync::DesyncMode;
use rr_channel::detthread::{initialize_new_thread, Builder, DetThreadId, ThreadState};
use rr_channel::error::{DesyncError, RecvErrorRR};
use rr_channel::rr::{recv_expected_message, DetChannelId};
use rr_channel::{BufferedValues, DetMessage, EventRecorder, RRMode, Tivo};
use std::borrow::Borrow;
use std::cell::RefCell;
use std::collections::VecDeque;

fn new_thread() -> ThreadState {
    ThreadState::new(
        RRMode::NoRR,
        DesyncMode::Panic,
        EventRecorder::get_global_recorder(),
    )
}

#[test]
fn det_chan_id() {
    let mut thread = new_thread();
    Tivo::init_tivo_thread_root_test(&mut thread);
    let chanid1 = DetChannelId::new(&mut thread);
    let chanid2 = DetChannelId::new(&mut thread);

    assert_eq!(chanid1.channel_id, 1);
    assert_eq!(chanid2.channel_id, 2);
    assert_eq!(chanid1.det_thread_id, chanid2.det_thread_id);
}

#[test]
fn det_chan_id2() {
    let mut thread = new_thread();
    Tivo::init_tivo_thread_root_test(&mut thread);

    let c1 = DetChannelId::new(&mut thread);
    let spawned = Builder::new().spawn(&mut thread).unwrap();
    let mut child = new_thread();
    initialize_new_thread(&mut child, spawned.id);
    let c2 = DetChannelId::new(&mut child);
    // First channel id in this thread. Should have id of one not two.
    assert_eq!(c2.channel_id, 1);
    assert_ne!(c1.det_thread_id, c2.det_thread_id);
}

// Message already in buffer.
#[test]
fn recv_expected_message_value_in_buffer() {
    let val = 10;
    let mut bv = BufferedValues::new();
    let det_id = DetThreadId::from([1].borrow());
    let mut queue = VecDeque::new();
    queue.push_back(val);

    bv.insert(DetThreadId::from([1].borrow()), queue);
    let f = || panic!("Value was in buffer, this fn should not have been called.");

    let v = recv_expected_message(&det_id, f, &mut bv).expect("Value should have been found");
    assert_eq!(v, val);
    // Check queue is empty.
    assert!(bv.get(&det_id).unwrap().is_empty());
}

// Empty buffer. Closure will be polled for message where it will be found.
#[test]
fn recv_expected_message_empty_buffer() {
    let val = 10;
    let mut bv = BufferedValues::new();
    let det_id = DetThreadId::from([1].borrow());
    let f = || Ok((det_id.clone(), val));

    let v = recv_expected_message(&det_id, f, &mut bv).expect("Value should have been found");
    assert_eq!(v, val);
    // Check queue is empty.
    assert!(bv.is_empty());
}

// Message not in buffer. Exercises the loop.
#[test]
fn recv_expected_message_multi_poll() {
    // Pretend this channel represents threads sending messages.
    let (s, r) = crossbeam_channel::unbounded::<(DetThreadId, u32)>();
    let sender1 = DetThreadId::from([1].borrow());
    let sender2 = DetThreadId::from([2].borrow());

    s.send((sender1.clone(), 10)).expect("failed to send");
    s.send((sender2.clone(), 11)).expect("failed to send");

    let mut bv = BufferedValues::new();
    let f = move || Ok(r.recv().unwrap());

    let v = recv_expected_message(&sender2, f, &mut bv).expect("Value should have been found");
    // Found correct value.
    assert_eq!(v, 11);
    // First value taken off channel and placed in queue.
    assert_eq!(10, bv.get_mut(&sender1).unwrap().pop_back().unwrap());
}

#[test]
fn recv_expected_message_errors() {
    let sender = DetThreadId::from(&[1]);
    let mut bv: BufferedValues<u32> = BufferedValues::new();
    let timeout = || Err(RecvErrorRR::Timeout);
    assert_eq!(
        recv_expected_message(&sender, timeout, &mut bv),
        Err(DesyncError::Timeout(None))
    );
    let disconnected = || Err(RecvErrorRR::Disconnected);
    assert_eq!(
        recv_expected_message(&sender, disconnected, &mut bv),
        Err(DesyncError::Disconnected)
    );
}

/// Waits for the senders in the given order. The wire holds the messages in another order.
fn deliver(order: &[u32], wire: Vec<DetMessage<u32>>) -> Vec<u32> {
    let wire = RefCell::new(VecDeque::from(wire));
    let poll = || wire.borrow_mut().pop_front().ok_or(RecvErrorRR::Timeout);
    let mut bv = BufferedValues::new();
    order
        .iter()
        .map(|s| recv_expected_message(&DetThreadId::from(&[*s]), &poll, &mut bv).unwrap())
        .collect()
}

#[test]
fn no_message_is_lost_or_swapped() {
    let msg = |s: u32, v: u32| (DetThreadId::from(&[s]), v);
    // Recorded: 1 sent 10 and 11, 2 sent 20 and 21.
    let order = [1, 2, 2, 1];
    let expected = vec![10, 20, 21, 11];
    let in_order = vec![msg(1, 10), msg(2, 20), msg(2, 21), msg(1, 11)];
    let twos_first = vec![msg(2, 20), msg(2, 21), msg(1, 10), msg(1, 11)];
    let ones_first = vec![msg(1, 10), msg(1, 11), msg(2, 20), msg(2, 21)];
    assert_eq!(deliver(&order, in_order), expected);
    assert_eq!(deliver(&order, twos_first), expected);
    assert_eq!(deliver(&order, ones_first), expected);
}
