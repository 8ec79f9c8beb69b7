//! The log of a single thread.

use vstd::prelude::*;
use std::collections::VecDeque;
use crate::error::{DesyncError, DesyncErrorView};
use crate::recordlog::{entry_of, EntryView, RecordEntry, RecordMetadata, TivoEvent, TivoEventView};
use crate::wire::{crossbeam_send_gave, LogSink};

verus! {

/// A thread's access to its log: where it writes its events while recording, and the events that
/// are still to come while replaying.
pub struct EventRecorder {
    event_number: u32,
    sink: Option<LogSink<RecordEntry>>,
    entries: VecDeque<RecordEntry>,
}

/// Mathematical value of an `EventRecorder`.
pub struct LogView {
    /// How many events were written or fetched, modulo the size of the counter.
    pub event_number: u32,
    /// Where entries are sent, if anywhere.
    pub sink: Option<::crossbeam_channel::Sender<RecordEntry>>,
    /// The entries that were sent, oldest first.
    pub written: Seq<EntryView>,
    /// The entries that are left to replay, oldest first.
    pub remaining: Seq<EntryView>,
}

/// The mathematical values of a list of entries.
pub open spec fn entry_views(entries: Seq<RecordEntry>) -> Seq<EntryView> {
    entries.map_values(|entry: RecordEntry| entry@)
}

/// One more event was counted.
pub open spec fn count_event(log: LogView) -> LogView {
    LogView { event_number: ((log.event_number + 1) % 0x1_0000_0000) as u32, ..log }
}

/// The log after an attempt to write `entry`.
pub open spec fn after_write(log: LogView, entry: EntryView, success: bool) -> LogView {
    LogView {
        written: if success {
            log.written.push(entry)
        } else {
            log.written
        },
        ..count_event(log)
    }
}

/// Whether an attempt to write `entry` succeeds: without a sink it fails, and otherwise the entry is
/// sent to the sink, which decides.
pub open spec fn write_gave(log: LogView, entry: EntryView, ok: bool) -> bool {
    match log.sink {
        None => !ok,
        Some(sink) => sink_gave(sink, entry, ok),
    }
}

/// A send of `entry` to `sink` succeeds, or not.
pub open spec fn sink_gave(
    sink: ::crossbeam_channel::Sender<RecordEntry>,
    entry: EntryView,
    ok: bool,
) -> bool {
    exists|handed: RecordEntry, sent: Result<(), RecordEntry>|
        {
            &&& handed@ == entry
            &&& #[trigger] crossbeam_send_gave(sink, handed, sent)
            &&& ok <==> sent is Ok
        }
}

/// The log after an attempt to fetch an entry.
pub open spec fn after_fetch(log: LogView) -> LogView {
    LogView {
        remaining: if log.remaining.len() > 0 {
            log.remaining.drop_first()
        } else {
            log.remaining
        },
        ..count_event(log)
    }
}

/// The next entry of the log tells of the creation of a channel.
pub open spec fn creation_is_next(log: LogView) -> bool {
    log.remaining.len() > 0 && log.remaining[0].event == TivoEventView::ChannelCreation
}

impl View for EventRecorder {
    type V = LogView;

    closed spec fn view(&self) -> LogView {
        LogView {
            event_number: self.event_number,
            sink: match self.sink {
                Some(sink) => Some(sink.sender()),
                None => None,
            },
            written: match self.sink {
                Some(sink) => entry_views(sink.sent()),
                None => Seq::<EntryView>::empty(),
            },
            remaining: entry_views(self.entries@),
        }
    }
}

impl EventRecorder {
    /// Access to no log: nothing can be written and nothing is left to replay.
    pub fn get_global_recorder() -> (recorder: EventRecorder)
        ensures
            recorder@ == (LogView {
                event_number: 0,
                sink: None,
                written: Seq::<EntryView>::empty(),
                remaining: Seq::<EntryView>::empty(),
            }),
    {
        let recorder = EventRecorder {
            event_number: 0,
            sink: None,
            entries: VecDeque::new(),
        };
        assert(recorder@.remaining =~= Seq::<EntryView>::empty());
        recorder
    }

    /// Access to a log that is being recorded: entries go to `sink`.
    pub fn recording(sink: ::crossbeam_channel::Sender<RecordEntry>) -> (recorder: EventRecorder)
        ensures
            recorder@ == (LogView {
                event_number: 0,
                sink: Some(sink),
                written: Seq::<EntryView>::empty(),
                remaining: Seq::<EntryView>::empty(),
            }),
    {
        let recorder = EventRecorder {
            event_number: 0,
            sink: Some(LogSink::new(sink)),
            entries: VecDeque::new(),
        };
        assert(recorder@.written =~= Seq::<EntryView>::empty());
        assert(recorder@.remaining =~= Seq::<EntryView>::empty());
        recorder
    }

    /// Access to a log that is being replayed.
    pub fn replaying(entries: VecDeque<RecordEntry>) -> (recorder: EventRecorder)
        ensures
            recorder@ == (LogView {
                event_number: 0,
                sink: None,
                written: Seq::<EntryView>::empty(),
                remaining: entry_views(entries@),
            }),
    {
        EventRecorder { event_number: 0, sink: None, entries }
    }

    /// How many events were written or fetched.
    pub fn event_number(&self) -> (n: u32)
        ensures
            n == self@.event_number,
    {
        self.event_number
    }

    /// How many entries are left to replay.
    pub fn entries_left(&self) -> (n: usize)
        ensures
            n == self@.remaining.len(),
    {
        self.entries.len()
    }

    /// The oldest entry that is left to replay, which stays where it is.
    pub fn peek_record_entry(&self) -> (entry: Option<&RecordEntry>)
        ensures
            match entry {
                Some(e) => self@.remaining.len() > 0 && e@ == self@.remaining[0],
                None => self@.remaining.len() == 0,
            },
    {
        if self.entries.len() == 0 {
            return None;
        }
        assert(self@.remaining[0] == self.entries@[0]@);
        Some(&self.entries[0])
    }

    /// Whether the next entry that is left to replay tells of the creation of a channel.
    pub fn creation_is_next(&self) -> (found: bool)
        ensures
            found == creation_is_next(self@),
    {
        match self.peek_record_entry() {
            Some(entry) => matches!(entry.event, TivoEvent::ChannelCreation),
            None => false,
        }
    }

    /// Takes the oldest entry that is left to replay.
    pub fn next_record_entry(&mut self) -> (entry: Option<RecordEntry>)
        ensures
            final(self)@ == after_fetch(old(self)@),
            match entry {
                Some(e) => old(self)@.remaining.len() > 0 && e@ == old(self)@.remaining[0],
                None => old(self)@.remaining.len() == 0,
            },
    {
        self.event_number = self.event_number.wrapping_add(1);
        let entry = self.entries.pop_front();
        proof {
            let before = entry_views(old(self).entries@);
            if before.len() > 0 {
                assert(entry_views(self.entries@) =~= before.drop_first());
            } else {
                assert(entry_views(self.entries@) =~= before);
            }
        }
        entry
    }

    /// Writes `event` on the channel described by `metadata`. Fails where no log is being
    /// collected, or no longer.
    pub fn write_event_to_record(&mut self, event: TivoEvent, metadata: &RecordMetadata) -> (r:
        Result<(), DesyncError>)
        ensures
            final(self)@ == after_write(old(self)@, entry_of(event@, metadata@), r is Ok),
            r matches Err(e) ==> e@ == DesyncErrorView::CannotWriteEventToLog(
                entry_of(event@, metadata@),
            ),
            write_gave(old(self)@, entry_of(event@, metadata@), r is Ok),
    {
        self.event_number = self.event_number.wrapping_add(1);
        let entry = RecordEntry::new(
            event,
            metadata.channel_variant,
            metadata.id.clone(),
            metadata.message_type.clone(),
        );
        let ghost handed = entry;
        match &mut self.sink {
            Some(sink) => {
                let ghost sender = sink.sender();
                let sent = sink.send(entry);
                assert(crossbeam_send_gave(sender, handed, sent));
                assert(sink_gave(sender, handed@, sent is Ok));
                match sent {
                    Ok(_) => {
                        assert(entry_views(sink.sent()) =~= old(self)@.written.push(handed@));
                        Ok(())
                    },
                    Err(back) => Err(DesyncError::CannotWriteEventToLog(back)),
                }
            },
            None => Err(DesyncError::CannotWriteEventToLog(entry)),
        }
    }

    /// Takes the oldest entry that is left to replay. Fails at the end of the log.
    pub fn get_log_entry(&mut self) -> (r: Result<RecordEntry, DesyncError>)
        ensures
            final(self)@ == after_fetch(old(self)@),
            match r {
                Ok(e) => old(self)@.remaining.len() > 0 && e@ == old(self)@.remaining[0],
                Err(e) => old(self)@.remaining.len() == 0 && e == DesyncError::NoEntryInLog,
            },
    {
        match self.next_record_entry() {
            Some(entry) => Ok(entry),
            None => Err(DesyncError::NoEntryInLog),
        }
    }
}

} // verus!
