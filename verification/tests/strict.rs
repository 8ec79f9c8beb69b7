//! Channels with a strict replay.

use rr_channel::detthread::DetThreadId;
use rr_channel::error::{RecvErrorDef, RecvTimeoutErrorDef, SendError, TryRecvErrorDef};
use rr_channel::recordlog::ChannelVariant;
use rr_channel::strict::{
    after, never, unbounded, EventKey, EventLog, EventThread, LoggedEvent, Mismatch, ReceiveEvent,
    Receiver, RecordedEvent, RecvTimeoutEvent, Sender, TryRecvEvent,
};
use rr_channel::RRMode;
use std::time::Duration;

fn id(path: &[u32]) -> DetThreadId {
    DetThreadId::from(path)
}

fn thread(path: &[u32]) -> EventThread {
    EventThread {
        det_id: id(path),
        select_id: 0,
    }
}

fn logged(event: RecordedEvent) -> LoggedEvent {
    LoggedEvent {
        event,
        flavor: ChannelVariant::CbUnbounded,
    }
}

fn key(path: &[u32], select_id: u32) -> EventKey {
    EventKey {
        det_id: id(path),
        select_id,
    }
}

fn log_of(entries: Vec<(EventKey, LoggedEvent)>) -> EventLog {
    let mut log = EventLog::new();
    for (key, event) in entries {
        log.insert(key, event);
    }
    log
}

fn success(path: &[u32]) -> RecordedEvent {
    RecordedEvent::Receive(ReceiveEvent::Success {
        sender_thread: id(path),
    })
}

#[test]
fn strict_receives_are_recorded_and_replayed() {
    let empty = EventLog::new();
    let mut main = thread(&[1]);
    let (s, mut r): (Sender<i32>, Receiver<i32>) = unbounded(RRMode::Record);
    s.send(&thread(&[2]), 20).unwrap();
    s.clone().send(&thread(&[3]), 30).unwrap();
    s.send(&thread(&[2]), 21).unwrap();
    let wait = Duration::from_millis(1);
    let mut log = vec![];
    let (got, entry) = r.recv(&mut main, &empty);
    assert_eq!(got, Ok(Ok(20)));
    assert_eq!(entry, Some((key(&[1], 0), logged(success(&[2])))));
    log.push(entry.unwrap());
    let (got, entry) = r.try_recv(&mut main, &empty);
    assert_eq!(got, Ok(Ok(30)));
    log.push(entry.unwrap());
    let (got, entry) = r.recv_timeout(&mut main, &empty, wait);
    assert_eq!(got, Ok(Ok(21)));
    log.push(entry.unwrap());
    let (got, entry) = r.try_recv(&mut main, &empty);
    assert_eq!(got, Ok(Err(TryRecvErrorDef::Empty)));
    log.push(entry.unwrap());
    let (got, entry) = r.recv_timeout(&mut main, &empty, wait);
    assert_eq!(got, Ok(Err(RecvTimeoutErrorDef::Timeout)));
    log.push(entry.unwrap());
    drop(s);
    let (got, entry) = r.recv(&mut main, &empty);
    assert_eq!(got, Ok(Err(RecvErrorDef {})));
    log.push(entry.unwrap());
    let (got, entry) = r.try_recv(&mut main, &empty);
    assert_eq!(got, Ok(Err(TryRecvErrorDef::Disconnected)));
    log.push(entry.unwrap());
    let (got, entry) = r.recv_timeout(&mut main, &empty, wait);
    assert_eq!(got, Ok(Err(RecvTimeoutErrorDef::Disconnected)));
    log.push(entry.unwrap());
    assert_eq!(main.select_id, 8);

    // Messages of different senders overtake each other.
    let log = log_of(log);
    let mut main = thread(&[1]);
    let (s, mut r): (Sender<i32>, Receiver<i32>) = unbounded(RRMode::Replay);
    s.send(&thread(&[3]), 30).unwrap();
    s.send(&thread(&[2]), 20).unwrap();
    s.send(&thread(&[2]), 21).unwrap();
    assert_eq!(r.recv(&mut main, &log), (Ok(Ok(20)), None));
    assert_eq!(r.try_recv(&mut main, &log), (Ok(Ok(30)), None));
    assert_eq!(r.recv_timeout(&mut main, &log, wait).0, Ok(Ok(21)));
    assert_eq!(r.try_recv(&mut main, &log).0, Ok(Err(TryRecvErrorDef::Empty)));
    assert_eq!(
        r.recv_timeout(&mut main, &log, wait).0,
        Ok(Err(RecvTimeoutErrorDef::Timeout))
    );
    assert_eq!(r.recv(&mut main, &log).0, Ok(Err(RecvErrorDef {})));
    assert_eq!(
        r.try_recv(&mut main, &log).0,
        Ok(Err(TryRecvErrorDef::Disconnected))
    );
    assert_eq!(
        r.recv_timeout(&mut main, &log, wait).0,
        Ok(Err(RecvTimeoutErrorDef::Disconnected))
    );
    assert_eq!(r.recv(&mut main, &log), (Err(Mismatch::NoEntry), None));
    assert_eq!(main.select_id, 8);
}

#[test]
fn strict_mismatches() {
    let wait = Duration::from_millis(1);
    let try_event = || {
        RecordedEvent::TryRecv(TryRecvEvent::Success {
            sender_thread: id(&[2]),
        })
    };
    let timed_out = || RecordedEvent::RecvTimeout(RecvTimeoutEvent::Timedout);
    let log = log_of(vec![
        (key(&[1], 0), logged(try_event())),
        (key(&[1], 1), logged(success(&[2]))),
        (key(&[1], 2), logged(success(&[2]))),
        (key(&[1], 3), logged(timed_out())),
    ]);
    let mut main = thread(&[1]);
    let (_s, mut r): (Sender<i32>, Receiver<i32>) = unbounded(RRMode::Replay);
    // The event is counted all the same.
    assert_eq!(r.recv(&mut main, &log).0, Err(Mismatch::Event(try_event())));
    assert_eq!(r.try_recv(&mut main, &log).0, Err(Mismatch::Event(success(&[2]))));
    assert_eq!(
        r.recv_timeout(&mut main, &log, wait).0,
        Err(Mismatch::Event(success(&[2])))
    );
    let mut other: Receiver<i32> = never(RRMode::Replay);
    assert_eq!(
        other.recv_timeout(&mut main, &log, wait).0,
        Err(Mismatch::Flavor(
            ChannelVariant::CbUnbounded,
            ChannelVariant::CbNever
        ))
    );
    assert_eq!(main.select_id, 4);
}

#[test]
fn strict_timers() {
    let empty = EventLog::new();
    let mut main = thread(&[1]);
    let mut timer = after(RRMode::Record, Duration::from_millis(1));
    let (got, entry) = timer.recv(&mut main, &empty);
    assert!(matches!(got, Ok(Ok(_))));
    // The message comes from the thread itself.
    let (_, entry) = entry.unwrap();
    assert_eq!(entry.event, success(&[1]));
    assert_eq!(entry.flavor, ChannelVariant::CbAfter);
    let mut never: Receiver<i32> = never(RRMode::Record);
    assert_eq!(
        never.try_recv(&mut main, &empty).0,
        Ok(Err(TryRecvErrorDef::Empty))
    );
}

#[test]
fn strict_send_gives_the_message_back() {
    let (s, r): (Sender<i32>, Receiver<i32>) = unbounded(RRMode::Record);
    drop(r);
    assert_eq!(s.send(&thread(&[1]), 5), Err(SendError(5)));
}
