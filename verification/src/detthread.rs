//! Deterministic thread identifiers.

use vstd::prelude::*;
use crate::desync::DesyncMode;
use crate::error::{DesyncError, DesyncErrorView};
use crate::mode::RRMode;
use crate::recorder::{after_fetch, after_write, write_gave, EventRecorder, LogView};
use crate::recordlog::{
    entry_of, ChannelVariant, MetadataView, RecordMetadata, TivoEvent, TivoEventView,
};
use crate::rr::{check_event_mismatch, event_mismatch, DetChannelId, RecordEventChecker};

verus! {

/// Deepest thread tree that an identifier can describe.
pub const MAX_SIZE: usize = 10;

/// Every thread is assigned a deterministic thread id: the path of child indices that leads to
/// it from the root thread. The path of the root thread is empty.
#[derive(Debug, Hash)]
pub struct DetThreadId {
    thread_id: [u32; 10],
    size: usize,
}

/// The first `size` of the numbers are a path, and there is nothing behind them.
pub open spec fn is_path(numbers: Seq<u32>, size: u64) -> bool {
    &&& size <= MAX_SIZE
    &&& forall|i: int| size <= i < numbers.len() ==> #[trigger] numbers[i] == 0
}

impl View for DetThreadId {
    type V = Seq<u32>;

    closed spec fn view(&self) -> Seq<u32> {
        self.thread_id@.subrange(0, self.size as int)
    }
}

impl DetThreadId {
    #[verifier::type_invariant]
    spec fn inv(self) -> bool {
        &&& self.size <= MAX_SIZE
        &&& forall|i: int| self.size <= i < MAX_SIZE ==> self.thread_id@[i] == 0
    }

    /// The path of the root thread.
    pub fn new() -> (id: DetThreadId)
        ensures
            id@ == Seq::<u32>::empty(),
    {
        let id = DetThreadId { thread_id: [0; 10], size: 0 };
        assert(id@ =~= Seq::<u32>::empty());
        id
    }

    /// Appends one child index to the path.
    pub fn extend_path(&mut self, node: u32)
        requires
            old(self)@.len() < MAX_SIZE,
        ensures
            final(self)@ == old(self)@.push(node),
    {
        proof {
            use_type_invariant(&*self);
        }
        let mut thread_id: [u32; 10] = self.thread_id;
        let size: usize = self.size;
        thread_id[size] = node;
        *self = DetThreadId { thread_id, size: size + 1 };
        assert(self@ =~= old(self)@.push(node));
    }

    pub fn from(slice: &[u32]) -> (id: DetThreadId)
        requires
            slice@.len() <= MAX_SIZE,
        ensures
            id@ == slice@,
    {
        let mut dti = DetThreadId::new();
        let mut i: usize = 0;
        while i < slice.len()
            invariant
                slice@.len() <= MAX_SIZE,
                i <= slice@.len(),
                dti@ == slice@.take(i as int),
            decreases slice@.len() - i,
        {
            dti.extend_path(slice[i]);
            assert(slice@.take(i as int).push(slice@[i as int]) =~= slice@.take(i + 1));
            i += 1;
        }
        assert(slice@.take(slice@.len() as int) =~= slice@);
        dti
    }

    /// The path of the first `size` numbers. No thread has such a path if it is too long, or if
    /// any other number is not zero.
    pub fn from_parts(thread_id: [u32; 10], size: u64) -> (id: Option<DetThreadId>)
        ensures
            match id {
                Some(id) => is_path(thread_id@, size) && id@ == thread_id@.subrange(0, size as int),
                None => !is_path(thread_id@, size),
            },
    {
        if size > 10 {
            return None;
        }
        let len: usize = size as usize;
        let mut i: usize = len;
        while i < 10
            invariant
                len <= i <= 10,
                len == size,
                forall|j: int| len <= j < i ==> thread_id@[j] == 0,
            decreases 10 - i,
        {
            if thread_id[i] != 0 {
                return None;
            }
            i += 1;
        }
        Some(DetThreadId { thread_id, size: len })
    }

    /// Whether both have the same path.
    pub fn same_path(&self, other: &DetThreadId) -> (equal: bool)
        ensures
            equal == (self@ == other@),
    {
        proof {
            use_type_invariant(self);
            use_type_invariant(other);
        }
        if self.size != other.size {
            assert(self@.len() != other@.len());
            return false;
        }
        let mut i: usize = 0;
        while i < self.size
            invariant
                self.size == other.size,
                self.size <= MAX_SIZE,
                i <= self.size,
                forall|j: int| 0 <= j < i ==> self.thread_id@[j] == other.thread_id@[j],
            decreases self.size - i,
        {
            if self.thread_id[i] != other.thread_id[i] {
                assert(self@[i as int] != other@[i as int]);
                return false;
            }
            i += 1;
        }
        assert(self@ =~= other@);
        true
    }

    pub fn as_slice(&self) -> (path: &[u32])
        ensures
            path@ == self@,
    {
        proof {
            use_type_invariant(self);
        }
        vstd::slice::slice_subrange(vstd::array::array_as_slice(&self.thread_id), 0, self.size)
    }
}

impl Clone for DetThreadId {
    fn clone(&self) -> (id: DetThreadId)
        ensures
            id == *self,
    {
        proof {
            use_type_invariant(self);
        }
        DetThreadId { thread_id: self.thread_id, size: self.size }
    }
}

impl PartialEq for DetThreadId {
    fn eq(&self, other: &DetThreadId) -> (equal: bool) {
        self.same_path(other)
    }
}

impl vstd::std_specs::cmp::PartialEqSpecImpl for DetThreadId {
    open spec fn obeys_eq_spec() -> bool {
        true
    }

    open spec fn eq_spec(&self, other: &DetThreadId) -> bool {
        self@ == other@
    }
}

impl Eq for DetThreadId {
}

impl Default for DetThreadId {
    fn default() -> (id: DetThreadId)
        ensures
            id@ == Seq::<u32>::empty(),
    {
        DetThreadId::new()
    }
}

/// Assigns ids to the children of one thread.
pub struct DetIdSpawner {
    /// Index of the next child. The first child has index one.
    pub child_index: u32,
    /// The thread whose children these are.
    pub thread_id: DetThreadId,
}

/// Mathematical value of a `DetIdSpawner`.
pub struct SpawnerView {
    pub child_index: u32,
    pub thread_id: Seq<u32>,
}

impl View for DetIdSpawner {
    type V = SpawnerView;

    open spec fn view(&self) -> SpawnerView {
        SpawnerView { child_index: self.child_index, thread_id: self.thread_id@ }
    }
}

impl SpawnerView {
    /// The id of the next child.
    pub open spec fn next_child(self) -> Seq<u32> {
        self.thread_id.push(self.child_index)
    }

    /// The spawner once the next child has its id.
    pub open spec fn advance(self) -> SpawnerView {
        SpawnerView { child_index: (self.child_index + 1) as u32, thread_id: self.thread_id }
    }

    /// There is room for one more child.
    pub open spec fn has_room(self) -> bool {
        self.thread_id.len() < MAX_SIZE && self.child_index < u32::MAX
    }
}

impl DetIdSpawner {
    /// The spawner of a thread that has no children yet.
    pub fn starting(thread: &ThreadState) -> (spawner: DetIdSpawner)
        requires
            thread@.initialized,
        ensures
            spawner@ == starting_spawner(thread@.det_id),
    {
        DetIdSpawner { child_index: 1, thread_id: thread.det_id.clone() }
    }

    /// The id of a new child.
    pub fn new_child_det_id(&mut self) -> (child: DetThreadId)
        requires
            old(self)@.has_room(),
        ensures
            child@ == old(self)@.next_child(),
            final(self)@ == old(self)@.advance(),
    {
        let mut new_thread_id = self.thread_id.clone();
        new_thread_id.extend_path(self.child_index);
        self.child_index = self.child_index + 1;
        new_thread_id
    }
}

/// The spawner of a thread that has no children yet.
pub open spec fn starting_spawner(det_id: Seq<u32>) -> SpawnerView {
    SpawnerView { child_index: 1, thread_id: det_id }
}

/// What a thread knows of itself and of the run.
pub struct ThreadState {
    pub mode: RRMode,
    pub desync_mode: DesyncMode,
    /// Whether the thread has its id. A thread that was not spawned through this library has none
    /// until it is given one.
    pub initialized: bool,
    /// The id of the thread. Means nothing until `initialized`.
    pub det_id: DetThreadId,
    /// Created when the first child is spawned.
    pub spawner: Option<DetIdSpawner>,
    /// Number of the next channel that the thread creates.
    pub next_channel_id: u32,
    /// Whether the thread knows that the program is desynchronized.
    pub desynced: bool,
    pub recorder: EventRecorder,
}

/// Mathematical value of a `ThreadState`.
pub struct ThreadView {
    pub mode: RRMode,
    pub desync_mode: DesyncMode,
    pub initialized: bool,
    pub det_id: Seq<u32>,
    pub spawner: Option<SpawnerView>,
    pub next_channel_id: u32,
    pub desynced: bool,
    pub log: LogView,
}

impl View for ThreadState {
    type V = ThreadView;

    open spec fn view(&self) -> ThreadView {
        ThreadView {
            mode: self.mode,
            desync_mode: self.desync_mode,
            initialized: self.initialized,
            det_id: self.det_id@,
            spawner: match self.spawner {
                Some(spawner) => Some(spawner@),
                None => None,
            },
            next_channel_id: self.next_channel_id,
            desynced: self.desynced,
            log: self.recorder@,
        }
    }
}

impl ThreadView {
    /// The spawner that the next child gets its id from.
    pub open spec fn current_spawner(self) -> SpawnerView {
        match self.spawner {
            Some(spawner) => spawner,
            None => starting_spawner(self.det_id),
        }
    }

    /// The thread has an id, and its children can have one.
    pub open spec fn can_spawn(self) -> bool {
        self.initialized && self.current_spawner().has_room()
    }

    /// The thread once its next child has its id.
    pub open spec fn after_spawn(self) -> ThreadView {
        ThreadView { spawner: Some(self.current_spawner().advance()), ..self }
    }

    /// The same thread with another log.
    pub open spec fn with_log(self, log: LogView) -> ThreadView {
        ThreadView { log, ..self }
    }

    /// The same thread, aware that the program is desynchronized.
    pub open spec fn marked(self) -> ThreadView {
        ThreadView { desynced: true, ..self }
    }

    /// The thread once it has used up the ids of `n` more channels.
    pub open spec fn after_channels(self, n: nat) -> ThreadView {
        ThreadView {
            next_channel_id: ((self.next_channel_id + n) % 0x1_0000_0000) as u32,
            ..self
        }
    }
}

impl ThreadState {
    /// A thread that has no id yet.
    pub fn new(mode: RRMode, desync_mode: DesyncMode, recorder: EventRecorder) -> (thread:
        ThreadState)
        ensures
            thread@ == (ThreadView {
                mode,
                desync_mode,
                initialized: false,
                det_id: Seq::<u32>::empty(),
                spawner: None,
                next_channel_id: 1,
                desynced: false,
                log: recorder@,
            }),
    {
        ThreadState {
            mode,
            desync_mode,
            initialized: false,
            det_id: DetThreadId::new(),
            spawner: None,
            next_channel_id: 1,
            desynced: false,
            recorder,
        }
    }
}

/// The id of the thread.
pub fn get_det_id(thread: &ThreadState) -> (id: DetThreadId)
    requires
        thread@.initialized,
    ensures
        id@ == thread@.det_id,
{
    thread.det_id.clone()
}

/// Generates the id of a new child of the thread. The parent calls this before the child is
/// spawned, and the id is passed on to the child.
pub fn generate_new_child_id(thread: &mut ThreadState) -> (child: DetThreadId)
    requires
        old(thread)@.can_spawn(),
    ensures
        child@ == old(thread)@.current_spawner().next_child(),
        final(thread)@ == old(thread)@.after_spawn(),
{
    let mut spawner = match thread.spawner.take() {
        Some(spawner) => spawner,
        None => DetIdSpawner::starting(thread),
    };
    let child = spawner.new_child_det_id();
    thread.spawner = Some(spawner);
    child
}

/// Gives its id to a thread that was spawned outside of this library.
pub fn init_foreign_thread(thread: &mut ThreadState, child_id: DetThreadId)
    requires
        !old(thread)@.initialized,
    ensures
        final(thread)@ == (ThreadView { initialized: true, det_id: child_id@, ..old(thread)@ }),
{
    initialize_new_thread(thread, child_id);
}

/// Sets all that a newly spawned thread needs. To be called for the child thread only.
pub fn initialize_new_thread(thread: &mut ThreadState, new_id: DetThreadId)
    ensures
        final(thread)@ == (ThreadView { initialized: true, det_id: new_id@, ..old(thread)@ }),
{
    thread.initialized = true;
    thread.det_id = new_id;
}

/// Expects the event that a child thread was spawned.
pub struct ThreadSpawnChecker {
    pub thread_id: DetThreadId,
}

impl RecordEventChecker for ThreadSpawnChecker {
    open spec fn accepts(&self, event: TivoEventView) -> bool {
        event == TivoEventView::ThreadInitialized(self.thread_id@)
    }

    open spec fn expected_event(&self) -> TivoEventView {
        TivoEventView::ThreadInitialized(self.thread_id@)
    }

    fn check_recorded_event(&self, re: &TivoEvent) -> (r: Result<(), TivoEvent>) {
        match re {
            TivoEvent::ThreadInitialized(expected_dti) => {
                if *expected_dti != self.thread_id {
                    return Err(TivoEvent::ThreadInitialized(self.thread_id.clone()));
                }
                Ok(())
            },
            _ => Err(TivoEvent::ThreadInitialized(self.thread_id.clone())),
        }
    }
}

/// How thread events are described in the log: they belong to no channel.
pub open spec fn thread_metadata() -> MetadataView {
    MetadataView {
        message_type: "Thread"@,
        channel_variant: ChannelVariant::NoChannel,
        id: DetChannelId::fake_view(),
    }
}

/// Describes thread events in the log.
fn new_thread_metadata() -> (metadata: RecordMetadata)
    ensures
        metadata@ == thread_metadata(),
{
    RecordMetadata::new("Thread".to_string(), ChannelVariant::NoChannel, DetChannelId::fake())
}

/// Properties of a thread that is about to be spawned.
pub struct Builder {
    pub name: Option<String>,
    pub stack_size: Option<usize>,
}

/// A thread that may now be spawned, and the id it has to start with.
pub struct SpawnedThread {
    pub id: DetThreadId,
    pub name: Option<String>,
    pub stack_size: Option<usize>,
}

impl Builder {
    pub fn new() -> (builder: Builder)
        ensures
            builder == (Builder { name: None, stack_size: None }),
    {
        Builder { name: None, stack_size: None }
    }

    pub fn name(self, name: String) -> (builder: Builder)
        ensures
            builder == (Builder { name: Some(name), stack_size: self.stack_size }),
    {
        Builder { name: Some(name), stack_size: self.stack_size }
    }

    pub fn stack_size(self, size: usize) -> (builder: Builder)
        ensures
            builder == (Builder { name: self.name, stack_size: Some(size) }),
    {
        Builder { name: self.name, stack_size: Some(size) }
    }

    /// Assigns an id to a new child of `thread` and records the event, or checks it against the
    /// log. The child is to be spawned on success only.
    pub fn spawn(self, thread: &mut ThreadState) -> (r: Result<SpawnedThread, DesyncError>)
        requires
            old(thread)@.can_spawn(),
        ensures
            ({
                let before = old(thread)@;
                let child = before.current_spawner().next_child();
                let event = TivoEventView::ThreadInitialized(child);
                &&& r matches Ok(s) ==> s.id@ == child && s.name == self.name && s.stack_size
                    == self.stack_size
                &&& match before.mode {
                    RRMode::Record => {
                        &&& final(thread)@ == before.after_spawn().with_log(
                            after_write(before.log, entry_of(event, thread_metadata()), r is Ok),
                        )
                        &&& r matches Err(e) ==> e@ == DesyncErrorView::CannotWriteEventToLog(
                            entry_of(event, thread_metadata()),
                        )
                        &&& write_gave(
                            before.log,
                            entry_of(event, thread_metadata()),
                            r is Ok,
                        )
                    },
                    RRMode::Replay => {
                        let logged = before.log.remaining[0];
                        &&& final(thread)@ == before.after_spawn().with_log(after_fetch(before.log))
                        &&& match r {
                            Ok(_) => before.log.remaining.len() > 0 && event_mismatch(
                                logged.event == event,
                                event,
                                logged,
                                thread_metadata(),
                            ) is None,
                            Err(e) => if before.log.remaining.len() == 0 {
                                e@ == DesyncErrorView::NoEntryInLog
                            } else {
                                event_mismatch(
                                    logged.event == event,
                                    event,
                                    logged,
                                    thread_metadata(),
                                ) == Some(e@)
                            },
                        }
                    },
                    RRMode::NoRR => r is Ok && final(thread)@ == before.after_spawn(),
                }
            }),
    {
        let new_id = generate_new_child_id(thread);
        match thread.mode {
            RRMode::Record => {
                let event = TivoEvent::ThreadInitialized(new_id.clone());
                let metadata = new_thread_metadata();
                match thread.recorder.write_event_to_record(event, &metadata) {
                    Ok(_) => {},
                    Err(e) => {
                        return Err(e);
                    },
                }
            },
            RRMode::Replay => {
                match thread.recorder.get_log_entry() {
                    Ok(entry) => {
                        let tsc = ThreadSpawnChecker { thread_id: new_id.clone() };
                        let metadata = new_thread_metadata();
                        match check_event_mismatch(&tsc, &entry, &metadata) {
                            Ok(_) => {},
                            Err(e) => {
                                return Err(e);
                            },
                        }
                    },
                    Err(e) => {
                        return Err(e);
                    },
                }
            },
            RRMode::NoRR => {},
        }
        Ok(SpawnedThread { id: new_id, name: self.name, stack_size: self.stack_size })
    }
}

impl Default for Builder {
    fn default() -> (builder: Builder)
        ensures
            builder == (Builder { name: None, stack_size: None }),
    {
        Builder::new()
    }
}

} // verus!
