//! Calls into the channels of crossbeam and of the standard library.
//!
//! What a receive or a send returns depends on the other end of the channel, so the functions
//! here promise of their results only what holds whatever the other end does.

use vstd::prelude::*;
use ::crossbeam_channel::{
    Receiver as CbReceiver, Select as CbSelect, SelectedOperation as CbOperation,
    Sender as CbSender,
};
use std::sync::mpsc::{
    Receiver as StdReceiver, Sender as StdSender, SyncSender as StdSyncSender,
};
use std::collections::VecDeque;
use std::time::{Duration, Instant};
use crate::error::{
    MpscRecvErrorDef, MpscRecvTimeoutErrorDef, MpscTryRecvErrorDef, RecvErrorDef,
    RecvTimeoutErrorDef, TryRecvErrorDef,
};
use crate::thread_map::SenderKey;

verus! {

/// A capacity that channels of all messages of an ordinary size can have.
pub const MAX_CAPACITY: usize = 0xffff_ffff;

/// A channel of this capacity for messages of type `T` can be had as far as memory goes: it has no
/// more than an ordinary capacity, or its buffer fits into the address space. A slot of the buffer
/// holds a message and a counter, both aligned.
pub open spec fn fits<T>(cap: usize) -> bool {
    ||| cap <= MAX_CAPACITY
    ||| cap * (vstd::layout::size_of::<T>() + vstd::layout::align_of::<T>() + 16) <= isize::MAX
}

/// Whether a channel of this capacity can be had as far as memory goes.
pub fn capacity_fits<T>(cap: usize) -> (ok: bool)
    ensures
        ok == fits::<T>(cap),
{
    if cap <= MAX_CAPACITY {
        return true;
    }
    let size: usize = core::mem::size_of::<T>();
    let align: usize = core::mem::align_of::<T>();
    let ghost slot = size + align + 16;
    let with_align = match size.checked_add(align) {
        Some(sum) => sum,
        None => {
            assert(cap * slot >= slot) by (nonlinear_arith)
                requires
                    cap >= 1,
                    slot >= 0,
            ;
            return false;
        },
    };
    let bytes = match with_align.checked_add(16) {
        Some(sum) => sum,
        None => {
            assert(cap * slot >= slot) by (nonlinear_arith)
                requires
                    cap >= 1,
                    slot >= 0,
            ;
            return false;
        },
    };
    match cap.checked_mul(bytes) {
        Some(all) => all <= isize::MAX as usize,
        None => false,
    }
}

/// The sending end of a crossbeam channel.
#[verifier::external_type_specification]
#[verifier::external_body]
#[verifier::reject_recursive_types(T)]
pub struct ExCrossbeamSender<T>(CbSender<T>);

/// The receiving end of a crossbeam channel.
#[verifier::external_type_specification]
#[verifier::external_body]
#[verifier::reject_recursive_types(T)]
pub struct ExCrossbeamReceiver<T>(CbReceiver<T>);

/// A crossbeam select with the operations that are registered with it.
#[verifier::external_type_specification]
#[verifier::external_body]
pub struct ExCrossbeamSelect<'a>(CbSelect<'a>);

/// An operation that a crossbeam select has selected.
#[verifier::external_type_specification]
#[verifier::external_body]
pub struct ExCrossbeamOperation<'a>(CbOperation<'a>);

/// The sending end of an unbounded standard library channel.
#[verifier::external_type_specification]
#[verifier::external_body]
#[verifier::reject_recursive_types(T)]
pub struct ExMpscSender<T>(StdSender<T>);

/// The sending end of a bounded standard library channel.
#[verifier::external_type_specification]
#[verifier::external_body]
#[verifier::reject_recursive_types(T)]
pub struct ExMpscSyncSender<T>(StdSyncSender<T>);

/// The receiving end of a standard library channel.
#[verifier::external_type_specification]
#[verifier::external_body]
#[verifier::reject_recursive_types(T)]
pub struct ExMpscReceiver<T>(StdReceiver<T>);

/// A measurement of the monotonic clock.
#[verifier::external_type_specification]
#[verifier::external_body]
pub struct ExInstant(Instant);

/// Calls `crossbeam_channel::Sender::send`. On failure the message comes back unchanged.
/// Whether the send succeeds depends on the receiving end.
#[verifier::external_body]
pub(crate) fn crossbeam_send<T>(sender: &CbSender<T>, msg: T) -> (r: Result<(), T>)
    ensures
        r matches Err(back) ==> back == msg,
{
    match sender.send(msg) {
        Ok(()) => Ok(()),
        Err(e) => Err(e.into_inner()),
    }
}

/// A send of `msg` through `sender` gave `r`.
pub open(crate) spec fn crossbeam_send_gave<T>(
    sender: CbSender<T>,
    msg: T,
    r: Result<(), T>,
) -> bool {
    call_ensures(crossbeam_send::<T>, (&sender, msg), r)
}

/// Calls `crossbeam_channel::Receiver::recv`, which blocks while the channel is empty and
/// connected. What comes depends on the sending end.
#[verifier::external_body]
fn crossbeam_recv<T>(receiver: &CbReceiver<T>) -> (r: Result<
    T,
    RecvErrorDef,
>) {
    match receiver.recv() {
        Ok(msg) => Ok(msg),
        Err(_) => Err(RecvErrorDef {  }),
    }
}

/// A blocking receive on `receiver` gave `r`.
pub closed spec fn crossbeam_recv_gave<T>(
    receiver: CbReceiver<T>,
    r: Result<T, RecvErrorDef>,
) -> bool {
    call_ensures(crossbeam_recv::<T>, (&receiver,), r)
}

/// Calls `crossbeam_channel::Receiver::try_recv`. What comes depends on the sending end.
#[verifier::external_body]
fn crossbeam_try_recv<T>(receiver: &CbReceiver<T>) -> (r: Result<
    T,
    TryRecvErrorDef,
>) {
    match receiver.try_recv() {
        Ok(msg) => Ok(msg),
        Err(::crossbeam_channel::TryRecvError::Empty) => Err(TryRecvErrorDef::Empty),
        Err(::crossbeam_channel::TryRecvError::Disconnected) => Err(TryRecvErrorDef::Disconnected),
    }
}

/// A receive on `receiver` that does not wait gave `r`.
pub closed spec fn crossbeam_try_recv_gave<T>(
    receiver: CbReceiver<T>,
    r: Result<T, TryRecvErrorDef>,
) -> bool {
    call_ensures(crossbeam_try_recv::<T>, (&receiver,), r)
}

/// Calls `crossbeam_channel::Receiver::recv_timeout`. What comes depends on the sending end and
/// on the clock.
#[verifier::external_body]
fn crossbeam_recv_timeout<T>(
    receiver: &CbReceiver<T>,
    timeout: Duration,
) -> (r: Result<T, RecvTimeoutErrorDef>) {
    match receiver.recv_timeout(timeout) {
        Ok(msg) => Ok(msg),
        Err(::crossbeam_channel::RecvTimeoutError::Timeout) => Err(RecvTimeoutErrorDef::Timeout),
        Err(::crossbeam_channel::RecvTimeoutError::Disconnected) => Err(
            RecvTimeoutErrorDef::Disconnected,
        ),
    }
}

/// A receive on `receiver` that waits no longer than `timeout` gave `r`.
pub closed spec fn crossbeam_recv_timeout_gave<T>(
    receiver: CbReceiver<T>,
    timeout: Duration,
    r: Result<T, RecvTimeoutErrorDef>,
) -> bool {
    call_ensures(crossbeam_recv_timeout::<T>, (&receiver, timeout), r)
}

/// Calls `crossbeam_channel::unbounded`: a new channel, about whose ends nothing is claimed.
#[verifier::external_body]
pub(crate) fn crossbeam_unbounded<T>() -> (ends: (
    CbSender<T>,
    CbReceiver<T>,
)) {
    ::crossbeam_channel::unbounded()
}

/// `ends` are those of a new unbounded channel.
pub open(crate) spec fn crossbeam_unbounded_gave<T>(
    ends: (CbSender<T>, CbReceiver<T>),
) -> bool {
    call_ensures(crossbeam_unbounded::<T>, (), ends)
}

/// Calls `crossbeam_channel::bounded`: a new channel, about whose ends nothing is claimed. It panics
/// if the capacity is too large.
#[verifier::external_body]
pub(crate) fn crossbeam_bounded<T>(cap: usize) -> (ends: (CbSender<T>, CbReceiver<T>))
    requires
        fits::<T>(cap),
{
    ::crossbeam_channel::bounded(cap)
}

/// `ends` are those of a new channel of capacity `cap`.
pub open(crate) spec fn crossbeam_bounded_gave<T>(
    cap: usize,
    ends: (CbSender<T>, CbReceiver<T>),
) -> bool {
    call_ensures(crossbeam_bounded::<T>, (cap,), ends)
}

/// A receive on `receiver` that returns gives neither a message nor the news that it is disconnected.
pub open(crate) spec fn stays_empty<T>(receiver: CbReceiver<T>) -> bool {
    &&& forall|r: Result<T, TryRecvErrorDef>| #[trigger]
        crossbeam_try_recv_gave(receiver, r) ==> r == Err::<T, TryRecvErrorDef>(
            TryRecvErrorDef::Empty,
        )
    &&& forall|timeout: Duration, r: Result<T, RecvTimeoutErrorDef>| #[trigger]
        crossbeam_recv_timeout_gave(receiver, timeout, r) ==> r == Err::<T, RecvTimeoutErrorDef>(
            RecvTimeoutErrorDef::Timeout,
        )
}

/// Whatever is received on `receiver`, it is not the news that it is disconnected.
pub open(crate) spec fn stays_connected<T>(receiver: CbReceiver<T>) -> bool {
    &&& forall|r: Result<T, TryRecvErrorDef>| #[trigger]
        crossbeam_try_recv_gave(receiver, r) ==> r != Err::<T, TryRecvErrorDef>(
            TryRecvErrorDef::Disconnected,
        )
    &&& forall|timeout: Duration, r: Result<T, RecvTimeoutErrorDef>| #[trigger]
        crossbeam_recv_timeout_gave(receiver, timeout, r) ==> r != Err::<T, RecvTimeoutErrorDef>(
            RecvTimeoutErrorDef::Disconnected,
        )
    &&& forall|r: Result<T, RecvErrorDef>| #[trigger]
        crossbeam_recv_gave(receiver, r) ==> r is Ok
}

/// Calls `crossbeam_channel::never`: a receiver that is always empty and never disconnected. A receive
/// that does not wait finds nothing, and one with a timeout times out. A blocking one does not
/// return, of which nothing is said.
#[verifier::external_body]
pub(crate) fn crossbeam_never<T>() -> (receiver: CbReceiver<T>)
    ensures
        stays_empty(receiver),
{
    ::crossbeam_channel::never()
}

/// `receiver` is one that never delivers a message.
pub open(crate) spec fn crossbeam_never_gave<T>(
    receiver: CbReceiver<T>,
) -> bool {
    call_ensures(crossbeam_never::<T>, (), receiver)
}

/// Calls `crossbeam_channel::after`: a receiver that is never disconnected. When its message comes
/// depends on the clock.
#[verifier::external_body]
pub(crate) fn crossbeam_after(duration: Duration) -> (receiver: CbReceiver<Instant>)
    ensures
        stays_connected(receiver),
{
    ::crossbeam_channel::after(duration)
}

/// `receiver` is one that delivers the time once `duration` has passed.
pub open(crate) spec fn crossbeam_after_gave(
    duration: Duration,
    receiver: CbReceiver<Instant>,
) -> bool {
    call_ensures(crossbeam_after, (duration,), receiver)
}

/// Calls `crossbeam_channel::Sender::clone`: another sender, about which nothing is claimed.
#[verifier::external_body]
pub(crate) fn crossbeam_clone<T>(sender: &CbSender<T>) -> (copy:
    CbSender<T>) {
    sender.clone()
}

/// `copy` sends to the same channel as `sender`.
pub open(crate) spec fn crossbeam_clone_gave<T>(
    sender: CbSender<T>,
    copy: CbSender<T>,
) -> bool {
    call_ensures(crossbeam_clone::<T>, (&sender,), copy)
}

/// The indices of the operations that are registered with a crossbeam select.
pub uninterp spec fn operations(selector: CbSelect) -> Set<usize>;

/// The index that a crossbeam select gives to the next operation.
pub uninterp spec fn next_index(selector: CbSelect) -> nat;

/// Calls `crossbeam_channel::Select::new`: nothing is registered, and indices start at zero.
#[verifier::external_body]
pub(crate) fn crossbeam_selector<'a>() -> (selector: CbSelect<'a>)
    ensures
        operations(selector) == Set::<usize>::empty(),
        next_index(selector) == 0,
{
    CbSelect::new()
}

/// Calls `crossbeam_channel::Select::recv` on a copy of the select: a receive is registered at the
/// next index. What the receive will give is left unsaid.
#[verifier::external_body]
pub(crate) fn crossbeam_register<'a, T>(selector: &CbSelect<'a>, receiver: &'a CbReceiver<T>) -> (r: (
    usize,
    CbSelect<'a>,
))
    requires
        next_index(*selector) < usize::MAX,
    ensures
        r.0 == next_index(*selector),
        next_index(r.1) == next_index(*selector) + 1,
        operations(r.1) == operations(*selector).insert(r.0),
{
    let mut copy = selector.clone();
    let index = copy.recv(receiver);
    (index, copy)
}

/// Registering a receive on `receiver` with `selector` gave the index and the select `r`.
pub open(crate) spec fn crossbeam_register_gave<'a, T>(
    selector: CbSelect<'a>,
    receiver: CbReceiver<T>,
    r: (usize, CbSelect<'a>),
) -> bool {
    call_ensures(crossbeam_register::<T>, (&selector, &receiver), r)
}

/// Calls `crossbeam_channel::Select::send` on a copy of the select: a send is registered at the next
/// index. When it will be ready is left unsaid.
#[verifier::external_body]
pub(crate) fn crossbeam_register_send<'a, T>(selector: &CbSelect<'a>, sender: &'a CbSender<T>) -> (r: (
    usize,
    CbSelect<'a>,
))
    requires
        next_index(*selector) < usize::MAX,
    ensures
        r.0 == next_index(*selector),
        next_index(r.1) == next_index(*selector) + 1,
        operations(r.1) == operations(*selector).insert(r.0),
{
    let mut copy = selector.clone();
    let index = copy.send(sender);
    (index, copy)
}

/// Registering a send through `sender` with `selector` gave the index and the select `r`.
pub open(crate) spec fn crossbeam_register_send_gave<'a, T>(
    selector: CbSelect<'a>,
    sender: CbSender<T>,
    r: (usize, CbSelect<'a>),
) -> bool {
    call_ensures(crossbeam_register_send::<T>, (&selector, &sender), r)
}

/// Calls `crossbeam_channel::Select::select` on a copy of the select, which blocks until an
/// operation is ready, and takes the index of that operation along. It panics if none is
/// registered. Which one is selected depends on the channels and on chance.
#[verifier::external_body]
pub(crate) fn crossbeam_select<'a>(selector: &CbSelect<'a>) -> (r: (usize, CbOperation<'a>))
    requires
        operations(*selector) != Set::<usize>::empty(),
    ensures
        operations(*selector).contains(r.0),
{
    let operation = selector.clone().select();
    (operation.index(), operation)
}

/// A select of `selector` gave the operation `r` with its index.
pub open(crate) spec fn crossbeam_select_gave<'a>(
    selector: CbSelect<'a>,
    r: (usize, CbOperation<'a>),
) -> bool {
    call_ensures(crossbeam_select, (&selector,), r)
}

/// Calls `crossbeam_channel::Select::ready` on a copy of the select, which blocks until an operation
/// is ready. It panics if none is registered. Which one is ready depends on the channels and on
/// chance.
#[verifier::external_body]
pub(crate) fn crossbeam_ready<'a>(selector: &CbSelect<'a>) -> (index: usize)
    requires
        operations(*selector) != Set::<usize>::empty(),
    ensures
        operations(*selector).contains(index),
{
    selector.clone().ready()
}

/// A query of `selector` for a ready operation gave `index`.
pub open(crate) spec fn crossbeam_ready_gave<'a>(selector: CbSelect<'a>, index: usize) -> bool {
    call_ensures(crossbeam_ready, (&selector,), index)
}

/// Calls `std::sync::mpsc::Sender::send`. On failure the message comes back unchanged. Whether the
/// send succeeds depends on the receiving end.
#[verifier::external_body]
pub(crate) fn mpsc_send<T>(sender: &StdSender<T>, msg: T) -> (r: Result<(), T>)
    ensures
        r matches Err(back) ==> back == msg,
{
    match sender.send(msg) {
        Ok(()) => Ok(()),
        Err(e) => Err(e.0),
    }
}

/// A send of `msg` through `sender` gave `r`.
pub open(crate) spec fn mpsc_send_gave<T>(
    sender: StdSender<T>,
    msg: T,
    r: Result<(), T>,
) -> bool {
    call_ensures(mpsc_send::<T>, (&sender, msg), r)
}

/// Calls `std::sync::mpsc::SyncSender::send`, which blocks while the channel is full. On failure
/// the message comes back unchanged. Whether the send succeeds depends on the receiving end.
#[verifier::external_body]
pub(crate) fn mpsc_sync_send<T>(sender: &StdSyncSender<T>, msg: T) -> (r: Result<(), T>)
    ensures
        r matches Err(back) ==> back == msg,
{
    match sender.send(msg) {
        Ok(()) => Ok(()),
        Err(e) => Err(e.0),
    }
}

/// A send of `msg` through `sender` gave `r`.
pub open(crate) spec fn mpsc_sync_send_gave<T>(
    sender: StdSyncSender<T>,
    msg: T,
    r: Result<(), T>,
) -> bool {
    call_ensures(mpsc_sync_send::<T>, (&sender, msg), r)
}

/// Calls `std::sync::mpsc::Receiver::recv`, which blocks while the channel is empty and connected.
/// What comes depends on the sending end.
#[verifier::external_body]
fn mpsc_recv<T>(receiver: &StdReceiver<T>) -> (r: Result<T, MpscRecvErrorDef>) {
    match receiver.recv() {
        Ok(msg) => Ok(msg),
        Err(_) => Err(MpscRecvErrorDef {  }),
    }
}

/// A blocking receive on `receiver` gave `r`.
pub closed spec fn mpsc_recv_gave<T>(
    receiver: StdReceiver<T>,
    r: Result<T, MpscRecvErrorDef>,
) -> bool {
    call_ensures(mpsc_recv::<T>, (&receiver,), r)
}

/// Calls `std::sync::mpsc::Receiver::try_recv`. What comes depends on the sending end.
#[verifier::external_body]
fn mpsc_try_recv<T>(receiver: &StdReceiver<T>) -> (r: Result<T, MpscTryRecvErrorDef>) {
    match receiver.try_recv() {
        Ok(msg) => Ok(msg),
        Err(std::sync::mpsc::TryRecvError::Empty) => Err(MpscTryRecvErrorDef::Empty),
        Err(std::sync::mpsc::TryRecvError::Disconnected) => Err(MpscTryRecvErrorDef::Disconnected),
    }
}

/// A receive on `receiver` that does not wait gave `r`.
pub closed spec fn mpsc_try_recv_gave<T>(
    receiver: StdReceiver<T>,
    r: Result<T, MpscTryRecvErrorDef>,
) -> bool {
    call_ensures(mpsc_try_recv::<T>, (&receiver,), r)
}

/// Calls `std::sync::mpsc::Receiver::recv_timeout`. What comes depends on the sending end and on
/// the clock.
#[verifier::external_body]
fn mpsc_recv_timeout<T>(receiver: &StdReceiver<T>, timeout: Duration) -> (r: Result<
    T,
    MpscRecvTimeoutErrorDef,
>) {
    match receiver.recv_timeout(timeout) {
        Ok(msg) => Ok(msg),
        Err(std::sync::mpsc::RecvTimeoutError::Timeout) => Err(MpscRecvTimeoutErrorDef::Timeout),
        Err(std::sync::mpsc::RecvTimeoutError::Disconnected) => Err(
            MpscRecvTimeoutErrorDef::Disconnected,
        ),
    }
}

/// A receive on `receiver` that waits no longer than `timeout` gave `r`.
pub closed spec fn mpsc_recv_timeout_gave<T>(
    receiver: StdReceiver<T>,
    timeout: Duration,
    r: Result<T, MpscRecvTimeoutErrorDef>,
) -> bool {
    call_ensures(mpsc_recv_timeout::<T>, (&receiver, timeout), r)
}

/// Calls `std::sync::mpsc::channel`: a new channel, about whose ends nothing is claimed.
#[verifier::external_body]
pub(crate) fn mpsc_channel<T>() -> (ends: (StdSender<T>, StdReceiver<T>)) {
    std::sync::mpsc::channel()
}

/// `ends` are those of a new unbounded channel.
pub open(crate) spec fn mpsc_channel_gave<T>(ends: (StdSender<T>, StdReceiver<T>)) -> bool {
    call_ensures(mpsc_channel::<T>, (), ends)
}

/// Calls `std::sync::mpsc::sync_channel`: a new channel, about whose ends nothing is claimed. Its
/// buffer has to fit into memory.
#[verifier::external_body]
pub(crate) fn mpsc_sync_channel<T>(bound: usize) -> (ends: (StdSyncSender<T>, StdReceiver<T>))
    requires
        fits::<T>(bound),
{
    std::sync::mpsc::sync_channel(bound)
}

/// `ends` are those of a new channel of capacity `bound`.
pub open(crate) spec fn mpsc_sync_channel_gave<T>(
    bound: usize,
    ends: (StdSyncSender<T>, StdReceiver<T>),
) -> bool {
    call_ensures(mpsc_sync_channel::<T>, (bound,), ends)
}

/// Calls `std::sync::mpsc::Sender::clone`: another sender, about which nothing is claimed.
#[verifier::external_body]
pub(crate) fn mpsc_clone<T>(sender: &StdSender<T>) -> (copy: StdSender<T>) {
    sender.clone()
}

/// `copy` sends to the same channel as `sender`.
pub open(crate) spec fn mpsc_clone_gave<T>(sender: StdSender<T>, copy: StdSender<T>) -> bool {
    call_ensures(mpsc_clone::<T>, (&sender,), copy)
}

/// Calls `std::sync::mpsc::SyncSender::clone`: another sender, about which nothing is claimed.
#[verifier::external_body]
pub(crate) fn mpsc_sync_clone<T>(sender: &StdSyncSender<T>) -> (copy: StdSyncSender<T>) {
    sender.clone()
}

/// `copy` sends to the same channel as `sender`.
pub open(crate) spec fn mpsc_sync_clone_gave<T>(
    sender: StdSyncSender<T>,
    copy: StdSyncSender<T>,
) -> bool {
    call_ensures(mpsc_sync_clone::<T>, (&sender,), copy)
}

/// The lower case equivalent of an ASCII letter, and any other character itself.
pub open spec fn ascii_lower(c: char) -> char {
    if 'A' <= c <= 'Z' {
        ((c as u32) + 32) as u8 as char
    } else {
        c
    }
}

/// Calls `str::to_ascii_lowercase`: each ASCII letter in upper case is replaced with the same
/// letter in lower case, and nothing else changes.
#[verifier::external_body]
pub(crate) fn to_lowercase(s: &str) -> (lower: String)
    ensures
        lower@ == s@.map_values(|c: char| ascii_lower(c)),
{
    s.to_ascii_lowercase()
}

/// Calls `crossbeam_channel::Receiver::try_iter` and collects what it gives: the messages that are
/// there, oldest first. Which ones these are depends on the sending end.
#[verifier::external_body]
fn crossbeam_drain<T>(receiver: CbReceiver<T>) -> (msgs: VecDeque<T>) {
    receiver.try_iter().collect()
}

/// Taking all messages that were there from `receiver` gave `msgs`.
pub closed spec fn crossbeam_drain_gave<T>(
    receiver: CbReceiver<T>,
    msgs: VecDeque<T>,
) -> bool {
    call_ensures(crossbeam_drain::<T>, (receiver,), msgs)
}

/// The number whose bytes, least significant first, are `bytes`.
pub open spec fn le_value(bytes: Seq<u8>) -> int
    decreases bytes.len(),
{
    if bytes.len() == 0 {
        0
    } else {
        bytes[0] + 256 * le_value(bytes.drop_first())
    }
}

/// Calls `bincode::deserialize` for ten numbers of four bytes, followed by one of eight bytes and
/// a unit, which takes no bytes. Numbers come least significant byte first. Bytes that follow are
/// ignored. It fails where there are too few bytes, and only there.
#[verifier::external_body]
pub(crate) fn decode_numbers(data: &Vec<u8>) -> (r: Option<([u32; 10], u64)>)
    ensures
        match r {
            Some((ids, size)) => {
                &&& data@.len() >= 48
                &&& forall|i: int|
                    0 <= i < 10 ==> #[trigger] ids@[i] == le_value(
                        data@.subrange(4 * i, 4 * i + 4),
                    )
                &&& size == le_value(data@.subrange(40, 48))
            },
            None => data@.len() < 48,
        },
{
    match bincode::deserialize::<(([u32; 10], u64), ())>(data) {
        Ok((id, _)) => Some(id),
        Err(_) => None,
    }
}

/// The path that `data` starts with, if there is one: nothing for a thread without an id, marked by
/// a zero, or the numbers of the path in four bytes each, behind a one and their count in eight
/// bytes.
pub open spec fn path_in(data: Seq<u8>) -> Option<Option<Seq<u32>>> {
    if data.len() == 0 {
        None
    } else if data[0] == 0 {
        Some(None)
    } else if data[0] == 1 && data.len() >= 9 && data.len() - 9 >= 4 * le_value(
        data.subrange(1, 9),
    ) {
        Some(
            Some(
                Seq::new(
                    le_value(data.subrange(1, 9)) as nat,
                    |i: int| le_value(data.subrange(9 + 4 * i, 13 + 4 * i)) as u32,
                ),
            ),
        )
    } else {
        None
    }
}

/// Calls `bincode::deserialize` for an optional list of numbers of four bytes, followed by a unit,
/// which takes no bytes. An absent list is one byte that is zero. A list is a byte that is one, its
/// length in eight bytes, and its numbers. Numbers come least significant byte first. Bytes that
/// follow are ignored. It fails on any other first byte, or where there are too few bytes.
#[verifier::external_body]
pub(crate) fn decode_path(data: &Vec<u8>) -> (r: Option<Option<Vec<u32>>>)
    ensures
        match r {
            Some(Some(path)) => path_in(data@) == Some(Some(path@)),
            Some(None) => path_in(data@) == Some(None::<Seq<u32>>),
            None => path_in(data@) is None,
        },
{
    match bincode::deserialize::<(Option<Vec<u32>>, ())>(data) {
        Ok((path, _)) => Some(path),
        Err(_) => None,
    }
}

/// `std::mem::forget`: takes the value without dropping it. Nothing is claimed.
pub assume_specification<T>[ std::mem::forget::<T> ](t: T);

/// Calls `std::time::Duration::from_secs`: a duration, about which nothing is claimed.
#[verifier::external_body]
pub(crate) fn seconds(secs: u64) -> (duration: Duration) {
    Duration::from_secs(secs)
}

/// `duration` is that many seconds.
pub open(crate) spec fn is_seconds(secs: u64, duration: Duration) -> bool {
    call_ensures(seconds, (secs,), duration)
}

/// The receiving end of a channel whose messages are tagged with ids of type `I`, or whose messages
/// get a tag as they are received.
#[verifier::reject_recursive_types(I)]
#[verifier::reject_recursive_types(T)]
pub enum RealEnd<I, T> {
    Tagged(CbReceiver<(I, T)>),
    Bare(CbReceiver<T>),
    Std(StdReceiver<(I, T)>),
}

/// The message that a receive took off the channel, if any.
pub open spec fn took<M, E>(got: Result<M, E>) -> Option<M> {
    match got {
        Ok(m) => Some(m),
        Err(_) => None,
    }
}

/// A record of all receives that were made on one end of a channel: what each of them took off the
/// channel, oldest first. No receive is possible without it.
#[verifier::reject_recursive_types(I)]
#[verifier::reject_recursive_types(T)]
pub struct Came<I, T> {
    end: Ghost<RealEnd<I, T>>,
    seen: Ghost<Seq<Option<(I, T)>>>,
}

impl<I, T> Came<I, T> {
    /// The end whose receives are recorded.
    pub closed spec fn end(self) -> RealEnd<I, T> {
        self.end@
    }

    /// What each receive took off the channel.
    pub closed spec fn seen(self) -> Seq<Option<(I, T)>> {
        self.seen@
    }

    /// Starts the record of an end whose messages are tagged.
    pub fn of_tagged(end: CbReceiver<(I, T)>) -> (r: (CbReceiver<(I, T)>, Came<I, T>))
        ensures
            r.0 == end,
            r.1.end() == RealEnd::<I, T>::Tagged(end),
            r.1.seen() == Seq::<Option<(I, T)>>::empty(),
    {
        let ghost kind = RealEnd::Tagged(end);
        (end, Came { end: Ghost(kind), seen: Ghost(Seq::empty()) })
    }

    /// Starts the record of an end whose messages get a tag as they are received.
    pub fn of_bare(end: CbReceiver<T>) -> (r: (CbReceiver<T>, Came<I, T>))
        ensures
            r.0 == end,
            r.1.end() == RealEnd::<I, T>::Bare(end),
            r.1.seen() == Seq::<Option<(I, T)>>::empty(),
    {
        let ghost kind = RealEnd::Bare(end);
        (end, Came { end: Ghost(kind), seen: Ghost(Seq::empty()) })
    }

    /// Starts the record of an end of a standard library channel.
    pub fn of_std(end: StdReceiver<(I, T)>) -> (r: (StdReceiver<(I, T)>, Came<I, T>))
        ensures
            r.0 == end,
            r.1.end() == RealEnd::<I, T>::Std(end),
            r.1.seen() == Seq::<Option<(I, T)>>::empty(),
    {
        let ghost kind = RealEnd::Std(end);
        (end, Came { end: Ghost(kind), seen: Ghost(Seq::empty()) })
    }

    /// `self` is `earlier` after one more receive, which gave `got`.
    pub open spec fn follows<E>(self, earlier: Came<I, T>, got: Result<(I, T), E>) -> bool {
        &&& self.end() == earlier.end()
        &&& self.seen() == earlier.seen().push(took(got))
    }
}

/// What is received without a tag gets the tag `id`.
pub open spec fn tagged_with<I: View, T, E>(
    id: I::V,
    raw: Result<T, E>,
    got: Result<(I, T), E>,
) -> bool {
    match raw {
        Ok(msg) => match got {
            Ok((tag, m)) => tag@ == id && m == msg,
            Err(_) => false,
        },
        Err(e) => got == Err::<(I, T), E>(e),
    }
}

/// Adds the tag `id` to what was received without one.
fn with_tag<I: SenderKey, T, E>(id: &I, raw: Result<T, E>) -> (got: Result<(I, T), E>)
    ensures
        tagged_with(id@, raw, got),
{
    match raw {
        Ok(msg) => Ok((id.copy(), msg)),
        Err(e) => Err(e),
    }
}

/// Blocks until a message comes, and records what came.
pub(crate) fn take_recv<I, T>(
    receiver: &CbReceiver<(I, T)>,
    came: &mut Came<I, T>,
) -> (got: Result<(I, T), RecvErrorDef>)
    requires
        old(came).end() == RealEnd::<I, T>::Tagged(*receiver),
    ensures
        crossbeam_recv_gave(*receiver, got),
        final(came).follows(*old(came), got),
{
    let f = crossbeam_recv::<(I, T)>;
    let got = f(receiver);
    came.seen = Ghost(came.seen@.push(took(got)));
    got
}

/// Blocks until a message comes, adds the tag `id`, and records what came.
pub(crate) fn take_bare_recv<I: SenderKey, T>(
    receiver: &CbReceiver<T>,
    id: &I,
    came: &mut Came<I, T>,
) -> (got: Result<(I, T), RecvErrorDef>)
    requires
        old(came).end() == RealEnd::<I, T>::Bare(*receiver),
    ensures
        exists|raw: Result<T, RecvErrorDef>| #[trigger]
            crossbeam_recv_gave(*receiver, raw) && tagged_with(id@, raw, got),
        final(came).follows(*old(came), got),
{
    let f = crossbeam_recv::<T>;
    let raw = f(receiver);
    assert(crossbeam_recv_gave(*receiver, raw));
    let got = with_tag(id, raw);
    came.seen = Ghost(came.seen@.push(took(got)));
    got
}

/// Receives without waiting, and records what came.
pub(crate) fn take_try_recv<I, T>(
    receiver: &CbReceiver<(I, T)>,
    came: &mut Came<I, T>,
) -> (got: Result<(I, T), TryRecvErrorDef>)
    requires
        old(came).end() == RealEnd::<I, T>::Tagged(*receiver),
    ensures
        crossbeam_try_recv_gave(*receiver, got),
        final(came).follows(*old(came), got),
{
    let f = crossbeam_try_recv::<(I, T)>;
    let got = f(receiver);
    came.seen = Ghost(came.seen@.push(took(got)));
    got
}

/// Receives without waiting, adds the tag `id`, and records what came.
pub(crate) fn take_bare_try_recv<I: SenderKey, T>(
    receiver: &CbReceiver<T>,
    id: &I,
    came: &mut Came<I, T>,
) -> (got: Result<(I, T), TryRecvErrorDef>)
    requires
        old(came).end() == RealEnd::<I, T>::Bare(*receiver),
    ensures
        exists|raw: Result<T, TryRecvErrorDef>| #[trigger]
            crossbeam_try_recv_gave(*receiver, raw) && tagged_with(id@, raw, got),
        final(came).follows(*old(came), got),
{
    let f = crossbeam_try_recv::<T>;
    let raw = f(receiver);
    assert(crossbeam_try_recv_gave(*receiver, raw));
    let got = with_tag(id, raw);
    came.seen = Ghost(came.seen@.push(took(got)));
    got
}

/// Receives, waiting no longer than `timeout`, and records what came.
pub(crate) fn take_recv_timeout<I, T>(
    receiver: &CbReceiver<(I, T)>,
    timeout: Duration,
    came: &mut Came<I, T>,
) -> (got: Result<(I, T), RecvTimeoutErrorDef>)
    requires
        old(came).end() == RealEnd::<I, T>::Tagged(*receiver),
    ensures
        crossbeam_recv_timeout_gave(*receiver, timeout, got),
        final(came).follows(*old(came), got),
{
    let f = crossbeam_recv_timeout::<(I, T)>;
    let got = f(receiver, timeout);
    came.seen = Ghost(came.seen@.push(took(got)));
    got
}

/// Receives, waiting no longer than `timeout`, adds the tag `id`, and records what came.
pub(crate) fn take_bare_recv_timeout<I: SenderKey, T>(
    receiver: &CbReceiver<T>,
    id: &I,
    timeout: Duration,
    came: &mut Came<I, T>,
) -> (got: Result<(I, T), RecvTimeoutErrorDef>)
    requires
        old(came).end() == RealEnd::<I, T>::Bare(*receiver),
    ensures
        exists|raw: Result<T, RecvTimeoutErrorDef>| #[trigger]
            crossbeam_recv_timeout_gave(*receiver, timeout, raw) && tagged_with(id@, raw, got),
        final(came).follows(*old(came), got),
{
    let f = crossbeam_recv_timeout::<T>;
    let raw = f(receiver, timeout);
    assert(crossbeam_recv_timeout_gave(*receiver, timeout, raw));
    let got = with_tag(id, raw);
    came.seen = Ghost(came.seen@.push(took(got)));
    got
}

/// Blocks until a message comes, and records what came.
pub(crate) fn take_std_recv<I, T>(
    receiver: &StdReceiver<(I, T)>,
    came: &mut Came<I, T>,
) -> (got: Result<(I, T), MpscRecvErrorDef>)
    requires
        old(came).end() == RealEnd::<I, T>::Std(*receiver),
    ensures
        mpsc_recv_gave(*receiver, got),
        final(came).follows(*old(came), got),
{
    let f = mpsc_recv::<(I, T)>;
    let got = f(receiver);
    came.seen = Ghost(came.seen@.push(took(got)));
    got
}

/// Receives without waiting, and records what came.
pub(crate) fn take_std_try_recv<I, T>(
    receiver: &StdReceiver<(I, T)>,
    came: &mut Came<I, T>,
) -> (got: Result<(I, T), MpscTryRecvErrorDef>)
    requires
        old(came).end() == RealEnd::<I, T>::Std(*receiver),
    ensures
        mpsc_try_recv_gave(*receiver, got),
        final(came).follows(*old(came), got),
{
    let f = mpsc_try_recv::<(I, T)>;
    let got = f(receiver);
    came.seen = Ghost(came.seen@.push(took(got)));
    got
}

/// Receives, waiting no longer than `timeout`, and records what came.
pub(crate) fn take_std_recv_timeout<I, T>(
    receiver: &StdReceiver<(I, T)>,
    timeout: Duration,
    came: &mut Came<I, T>,
) -> (got: Result<(I, T), MpscRecvTimeoutErrorDef>)
    requires
        old(came).end() == RealEnd::<I, T>::Std(*receiver),
    ensures
        mpsc_recv_timeout_gave(*receiver, timeout, got),
        final(came).follows(*old(came), got),
{
    let f = mpsc_recv_timeout::<(I, T)>;
    let got = f(receiver, timeout);
    came.seen = Ghost(came.seen@.push(took(got)));
    got
}

/// The sending end of a log, with a record of all that was sent, oldest first.
#[verifier::reject_recursive_types(T)]
pub struct LogSink<T> {
    sender: CbSender<T>,
    sent: Ghost<Seq<T>>,
}

impl<T> LogSink<T> {
    /// The sending end itself.
    pub closed spec fn sender(self) -> CbSender<T> {
        self.sender
    }

    /// All that was sent.
    pub closed spec fn sent(self) -> Seq<T> {
        self.sent@
    }

    pub fn new(sender: CbSender<T>) -> (sink: LogSink<T>)
        ensures
            sink.sender() == sender,
            sink.sent() == Seq::<T>::empty(),
    {
        LogSink { sender, sent: Ghost(Seq::empty()) }
    }

    /// Sends `msg`, and records it if that succeeds. Otherwise it comes back.
    pub fn send(&mut self, msg: T) -> (r: Result<(), T>)
        ensures
            crossbeam_send_gave(old(self).sender(), msg, r),
            r matches Err(back) ==> back == msg,
            final(self).sender() == old(self).sender(),
            final(self).sent() == (if r is Ok {
                old(self).sent().push(msg)
            } else {
                old(self).sent()
            }),
    {
        let f = crossbeam_send::<T>;
        let ghost m = msg;
        let r = f(&self.sender, msg);
        if r.is_ok() {
            self.sent = Ghost(self.sent@.push(m));
        }
        r
    }
}

/// The receiving end of a log. Nothing can be taken from it but all at once, at the end.
#[verifier::reject_recursive_types(T)]
pub struct LogEnd<T> {
    end: CbReceiver<T>,
}

impl<T> LogEnd<T> {
    /// The receiving end itself.
    pub closed spec fn end(self) -> CbReceiver<T> {
        self.end
    }

    pub fn new(end: CbReceiver<T>) -> (log: LogEnd<T>)
        ensures
            log.end() == end,
    {
        LogEnd { end }
    }

    /// Takes all that is there, oldest first. The end is given up.
    pub fn take_all(self) -> (msgs: VecDeque<T>)
        ensures
            crossbeam_drain_gave(self.end(), msgs),
    {
        let f = crossbeam_drain::<T>;
        f(self.end)
    }
}

/// Something that can be called for a message, over and over. It cannot be called but through a
/// `Tap`, which records every call.
pub trait Calls<M, E>: Sized {
    /// A call is allowed.
    spec fn ready(&self) -> bool;

    /// A call may give `got`.
    spec fn gives(&self, got: Result<M, E>) -> bool;

    /// Makes one call, and records it.
    fn call_once(&self, calls: &mut Trace<M>) -> (got: Result<M, E>)
        requires
            self.ready(),
        ensures
            self.gives(got),
            final(calls).seen() == old(calls).seen().push(took(got)),
    ;
}

impl<M, E, F: Fn() -> Result<M, E>> Calls<M, E> for F {
    open spec fn ready(&self) -> bool {
        call_requires(*self, ())
    }

    open spec fn gives(&self, got: Result<M, E>) -> bool {
        call_ensures(*self, (), got)
    }

    fn call_once(&self, calls: &mut Trace<M>) -> (got: Result<M, E>) {
        let got = self();
        calls.seen = Ghost(calls.seen@.push(took(got)));
        got
    }
}

/// A record of all calls that were made: the message that each of them gave, oldest first.
#[verifier::reject_recursive_types(M)]
pub struct Trace<M> {
    seen: Ghost<Seq<Option<M>>>,
}

impl<M> Trace<M> {
    /// The message that each call gave.
    pub closed spec fn seen(self) -> Seq<Option<M>> {
        self.seen@
    }
}

/// Two things that are called for messages, with a record of all calls of both. They are given up
/// to it, so that no call goes by unrecorded.
#[verifier::reject_recursive_types(M)]
pub struct Tap<F, G, M> {
    first: F,
    second: G,
    trace: Trace<M>,
}

impl<F, G, M> Tap<F, G, M> {
    pub closed spec fn first(self) -> F {
        self.first
    }

    pub closed spec fn second(self) -> G {
        self.second
    }

    /// The message that each call gave.
    pub closed spec fn seen(self) -> Seq<Option<M>> {
        self.trace.seen()
    }

    /// `self` is `earlier` after one more call, which gave `got`.
    pub open spec fn follows<E>(self, earlier: Tap<F, G, M>, got: Result<M, E>) -> bool {
        &&& self.first() == earlier.first()
        &&& self.second() == earlier.second()
        &&& self.seen() == earlier.seen().push(took(got))
    }

    /// Starts a record: no call was made yet.
    pub fn new(first: F, second: G) -> (tap: Tap<F, G, M>)
        ensures
            tap.first() == first,
            tap.second() == second,
            tap.seen() == Seq::<Option<M>>::empty(),
    {
        Tap { first, second, trace: Trace { seen: Ghost(Seq::empty()) } }
    }

    pub fn call_first<E>(&mut self) -> (got: Result<M, E>) where F: Calls<M, E>
        requires
            old(self).first().ready(),
        ensures
            old(self).first().gives(got),
            final(self).follows(*old(self), got),
    {
        self.first.call_once(&mut self.trace)
    }

    pub fn call_second<E>(&mut self) -> (got: Result<M, E>) where G: Calls<M, E>
        requires
            old(self).second().ready(),
        ensures
            old(self).second().gives(got),
            final(self).follows(*old(self), got),
    {
        self.second.call_once(&mut self.trace)
    }

    /// Ends the record: no further call can be made.
    pub fn close(self) -> (seen: Ghost<Seq<Option<M>>>)
        ensures
            seen@ == self.seen(),
    {
        Ghost(self.seen())
    }
}

/// `seen` are the messages of all calls of `first` and `second` that were made since they were
/// given up to a `Tap`, from the first call to the last.
pub open spec fn all_calls<F, G, M>(first: F, second: G, seen: Seq<Option<M>>) -> bool {
    exists|tap: Tap<F, G, M>|
        {
            &&& tap.first() == first
            &&& tap.second() == second
            &&& #[trigger] call_ensures(Tap::<F, G, M>::close, (tap,), Ghost(seen))
        }
}

/// Something that can be called for what a receiver gives, over and over. It cannot be called but
/// through a `SetTap`, which records every call.
pub trait CallsAt<R, X>: Sized {
    /// A call for the receiver is allowed.
    spec fn ready_at(&self, receiver: R) -> bool;

    /// A call for the receiver may give `got`.
    spec fn gives_at(&self, receiver: R, got: X) -> bool;

    /// Makes one call for the receiver at position `at`, and records it.
    fn call_once_at(&self, receiver: &R, at: Ghost<int>, calls: &mut SetTrace<R, X>) -> (got: X)
        requires
            self.ready_at(*receiver),
        ensures
            self.gives_at(*receiver, got),
            final(calls).seen() == old(calls).seen().push((at@, *receiver, got)),
    ;
}

impl<R, X, F: Fn(&R) -> X> CallsAt<R, X> for F {
    open spec fn ready_at(&self, receiver: R) -> bool {
        call_requires(*self, (&receiver,))
    }

    open spec fn gives_at(&self, receiver: R, got: X) -> bool {
        call_ensures(*self, (&receiver,), got)
    }

    fn call_once_at(&self, receiver: &R, at: Ghost<int>, calls: &mut SetTrace<R, X>) -> (got: X) {
        let got = self(receiver);
        calls.seen = Ghost(calls.seen@.push((at@, *receiver, got)));
        got
    }
}

/// A record of all calls that were made for the receivers of a set: the position, the receiver, and
/// what the call gave, oldest first.
#[verifier::reject_recursive_types(R)]
#[verifier::reject_recursive_types(X)]
pub struct SetTrace<R, X> {
    seen: Ghost<Seq<(int, R, X)>>,
}

impl<R, X> SetTrace<R, X> {
    /// The calls.
    pub closed spec fn seen(self) -> Seq<(int, R, X)> {
        self.seen@
    }
}

/// Something that is called for the receivers of a set, with a record of all calls. It is given up to
/// it, so that no call goes by unrecorded.
#[verifier::reject_recursive_types(R)]
#[verifier::reject_recursive_types(X)]
pub struct SetTap<F, R, X> {
    calls: F,
    trace: SetTrace<R, X>,
}

impl<F, R, X> SetTap<F, R, X> {
    pub closed spec fn calls(self) -> F {
        self.calls
    }

    /// All calls that were made.
    pub closed spec fn seen(self) -> Seq<(int, R, X)> {
        self.trace.seen()
    }

    /// Starts a record: no call was made yet.
    pub fn new(calls: F) -> (tap: SetTap<F, R, X>)
        ensures
            tap.calls() == calls,
            tap.seen() == Seq::<(int, R, X)>::empty(),
    {
        SetTap { calls, trace: SetTrace { seen: Ghost(Seq::empty()) } }
    }

    /// Calls for the receiver at position `at`.
    pub fn call(&mut self, receiver: &R, at: Ghost<int>) -> (got: X) where F: CallsAt<R, X>
        requires
            old(self).calls().ready_at(*receiver),
        ensures
            old(self).calls().gives_at(*receiver, got),
            final(self).calls() == old(self).calls(),
            final(self).seen() == old(self).seen().push((at@, *receiver, got)),
    {
        self.calls.call_once_at(receiver, at, &mut self.trace)
    }

    /// Ends the record: no further call can be made.
    pub fn close(self) -> (seen: Ghost<Seq<(int, R, X)>>)
        ensures
            seen@ == self.seen(),
    {
        Ghost(self.seen())
    }
}

/// `seen` are all calls of `calls` that were made since it was given up to a `SetTap`, from the first
/// to the last.
pub open spec fn all_calls_at<F, R, X>(calls: F, seen: Seq<(int, R, X)>) -> bool {
    exists|tap: SetTap<F, R, X>|
        {
            &&& tap.calls() == calls
            &&& #[trigger] call_ensures(SetTap::<F, R, X>::close, (tap,), Ghost(seen))
        }
}

} // verus!
