//! The logs of all threads of a run.

use vstd::prelude::*;
use std::collections::VecDeque;
use crate::detthread::DetThreadId;
use crate::recorder::EventRecorder;
use crate::recordlog::{EntryView, RecordEntry};
use crate::thread_map::ThreadMap;
use crate::wire::{crossbeam_drain_gave, crossbeam_unbounded, crossbeam_unbounded_gave, LogEnd};

verus! {

/// The entries of each thread.
pub type Entries = ThreadMap<DetThreadId, VecDeque<RecordEntry>>;

/// The logs that are being replayed.
#[derive(Debug)]
pub struct GlobalReplayer {
    pub replayer: Entries,
}

impl GlobalReplayer {
    pub fn init_from(replayer: Entries) -> (r: GlobalReplayer)
        ensures
            r.replayer == replayer,
    {
        GlobalReplayer { replayer }
    }

    /// Takes the entries of one thread. The thread must have been recorded, and must not have
    /// taken them before.
    pub fn take_entry(&mut self, det_id: &DetThreadId) -> (entries: VecDeque<RecordEntry>)
        requires
            old(self).replayer.wf(),
            old(self).replayer@.contains_key(det_id@),
        ensures
            final(self).replayer.wf(),
            entries == old(self).replayer@[det_id@],
            final(self).replayer@ == old(self).replayer@.remove(det_id@),
    {
        match self.replayer.remove(det_id) {
            Some(entries) => entries,
            None => vstd::pervasive::unreached(),
        }
    }
}

/// The logs that are being recorded. Every thread sends its entries through a channel, so that they
/// outlive the thread.
pub struct GlobalRecorder {
    pub recorder: ThreadMap<DetThreadId, LogEnd<RecordEntry>>,
    /// Where the logs are to be written.
    pub path: Option<String>,
}

/// Why the logs are not written.
#[derive(Debug, Clone, Copy, PartialEq, Eq, Structural)]
pub enum FlushError {
    NoPath,
    NoEntries,
}

/// What is to be written, and where.
pub struct Flush {
    pub path: String,
    pub entries: Entries,
}

/// `entries` holds for every thread what was taken from its channel.
pub open spec fn collected(
    recorder: Map<Seq<u32>, LogEnd<RecordEntry>>,
    entries: Map<Seq<u32>, VecDeque<RecordEntry>>,
) -> bool {
    &&& entries.dom() == recorder.dom()
    &&& forall|id: Seq<u32>|
        recorder.contains_key(id) ==> crossbeam_drain_gave(
            recorder[id].end(),
            #[trigger] entries[id],
        )
}

impl GlobalRecorder {
    /// No logs yet, and no file to write them to.
    pub fn init_no_file() -> (recorder: GlobalRecorder)
        ensures
            recorder.recorder.wf(),
            recorder.recorder@ == Map::<
                Seq<u32>,
                LogEnd<RecordEntry>,
            >::empty(),
            recorder.path is None,
    {
        GlobalRecorder { recorder: ThreadMap::new(), path: None }
    }

    /// No logs yet. They are to be written to the file `path`.
    pub fn init(path: &str) -> (recorder: GlobalRecorder)
        ensures
            recorder.recorder.wf(),
            recorder.recorder@ == Map::<
                Seq<u32>,
                LogEnd<RecordEntry>,
            >::empty(),
            recorder.path matches Some(p) && p@ == path@,
    {
        GlobalRecorder { recorder: ThreadMap::new(), path: Some(path.to_string()) }
    }

    /// Adds the receiving end of a thread's log. Every thread has only one.
    pub fn add_receiver(
        &mut self,
        sender_id: DetThreadId,
        r: ::crossbeam_channel::Receiver<RecordEntry>,
    )
        requires
            old(self).recorder.wf(),
            !old(self).recorder@.contains_key(sender_id@),
        ensures
            final(self).recorder.wf(),
            final(self).recorder@.dom() == old(self).recorder@.dom().insert(sender_id@),
            final(self).recorder@[sender_id@].end() == r,
            final(self).recorder@ == old(self).recorder@.insert(
                sender_id@,
                final(self).recorder@[sender_id@],
            ),
            final(self).path == old(self).path,
    {
        let _ = self.recorder.insert(sender_id, LogEnd::new(r));
    }

    /// Starts the log of a thread.
    pub fn start_thread(&mut self, id: DetThreadId) -> (recorder: EventRecorder)
        requires
            old(self).recorder.wf(),
            !old(self).recorder@.contains_key(id@),
        ensures
            final(self).recorder.wf(),
            final(self).path == old(self).path,
            ({
                &&& recorder@.event_number == 0
                &&& recorder@.written == Seq::<EntryView>::empty()
                &&& recorder@.remaining == Seq::<EntryView>::empty()
                &&& recorder@.sink matches Some(s)
                &&& final(self).recorder@.dom() == old(self).recorder@.dom().insert(id@)
                &&& forall|other: Seq<u32>|
                    other != id@ && old(self).recorder@.contains_key(other)
                        ==> final(self).recorder@[other] == #[trigger] old(self).recorder@[other]
                &&& crossbeam_unbounded_gave((s, final(self).recorder@[id@].end()))
            }),
    {
        let f = crossbeam_unbounded::<RecordEntry>;
        let (s, r) = f();
        self.add_receiver(id, r);
        EventRecorder::recording(s)
    }

    /// Collects the entries of all threads.
    pub fn get_all_entries(self) -> (entries: Entries)
        requires
            self.recorder.wf(),
        ensures
            entries.wf(),
            collected(self.recorder@, entries@),
    {
        let mut recorder = self.recorder;
        let mut entries: Entries = ThreadMap::new();
        let ghost all = recorder@;
        loop
            invariant
                all == self.recorder@,
                recorder.wf(),
                entries.wf(),
                forall|id: Seq<u32>| #[trigger]
                    recorder@.contains_key(id) ==> all.contains_key(id) && recorder@[id] == all[id],
                forall|id: Seq<u32>| #[trigger]
                    entries@.contains_key(id) ==> all.contains_key(id) && crossbeam_drain_gave(
                        all[id].end(),
                        entries@[id],
                    ),
                forall|id: Seq<u32>| #[trigger]
                    all.contains_key(id) ==> recorder@.contains_key(id) || entries@.contains_key(
                        id,
                    ),
            decreases recorder.key_order().len(),
        {
            match recorder.pop() {
                Some((id, event_receiver)) => {
                    let events = event_receiver.take_all();
                    let _ = entries.insert(id, events);
                },
                None => {
                    assert(entries@.dom() =~= all.dom()) by {
                        assert forall|id: Seq<u32>|
                            entries@.dom().contains(id) == all.dom().contains(id) by {
                            if all.contains_key(id) {
                                assert(!recorder@.contains_key(id));
                            }
                            assert(entries@.contains_key(id) ==> all.contains_key(id));
                        }
                    }
                    assert forall|id: Seq<u32>| all.contains_key(id) implies crossbeam_drain_gave(
                        all[id].end(),
                        #[trigger] entries@[id],
                    ) by {
                        assert(entries@.dom().contains(id));
                        assert(entries@.contains_key(id));
                    }
                    return entries;
                },
            }
        }
    }

    /// Collects what is to be written to the file. There has to be a file, and at least one log.
    pub fn flush(self) -> (r: Result<Flush, FlushError>)
        requires
            self.recorder.wf(),
        ensures
            match r {
                Ok(flush) => {
                    &&& self.path == Some(flush.path)
                    &&& flush.entries.wf()
                    &&& collected(self.recorder@, flush.entries@)
                    &&& flush.entries@ != Map::<Seq<u32>, VecDeque<RecordEntry>>::empty()
                },
                Err(FlushError::NoPath) => self.path is None,
                Err(FlushError::NoEntries) => self.path is Some && self.recorder@ == Map::<
                    Seq<u32>,
                    LogEnd<RecordEntry>,
                >::empty(),
            },
    {
        let GlobalRecorder { recorder, path } = self;
        match path {
            None => Err(FlushError::NoPath),
            Some(path) => {
                let ghost all = recorder@;
                let entries = GlobalRecorder { recorder, path: None }.get_all_entries();
                if entries.is_empty() {
                    assert(all =~= Map::<
                        Seq<u32>,
                        LogEnd<RecordEntry>,
                    >::empty());
                    return Err(FlushError::NoEntries);
                }
                Ok(Flush { path, entries })
            },
        }
    }
}

/// Takes the recorder, of which there must be one, and collects the entries of all threads.
pub fn take_global_memory_recorder(recorder: &mut Option<GlobalRecorder>) -> (entries: Entries)
    requires
        *old(recorder) is Some,
        (*old(recorder))->0.recorder.wf(),
    ensures
        *final(recorder) is None,
        entries.wf(),
        collected((*old(recorder))->0.recorder@, entries@),
{
    match recorder.take() {
        Some(gr) => gr.get_all_entries(),
        None => vstd::pervasive::unreached(),
    }
}

} // verus!
