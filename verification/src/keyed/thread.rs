//! Thread ids without a limit on their depth, and the state of a thread.

use vstd::prelude::*;
use crate::desync::DesyncMode;
use crate::mode::RRMode;
use crate::thread_map::SenderKey;

verus! {

/// The path of child indices that leads to a thread from the main thread.
#[derive(Debug)]
pub struct DetThreadId {
    thread_id: Vec<u32>,
}

impl View for DetThreadId {
    type V = Seq<u32>;

    closed spec fn view(&self) -> Seq<u32> {
        self.thread_id@
    }
}

impl DetThreadId {
    /// The main thread has an id from the start, other threads have none until they are given one.
    pub fn new(main: bool) -> (id: Option<DetThreadId>)
        ensures
            match id {
                Some(id) => main && id@ == Seq::<u32>::empty(),
                None => !main,
            },
    {
        if main {
            Some(DetThreadId { thread_id: Vec::new() })
        } else {
            None
        }
    }

    /// Appends one child index to the path.
    pub fn extend_path(&mut self, node: u32)
        ensures
            final(self)@ == old(self)@.push(node),
    {
        self.thread_id.push(node);
    }

    pub fn from(thread_id: &[u32]) -> (id: DetThreadId)
        ensures
            id@ == thread_id@,
    {
        let mut path: Vec<u32> = Vec::new();
        let mut i: usize = 0;
        while i < thread_id.len()
            invariant
                i <= thread_id@.len(),
                path@ == thread_id@.take(i as int),
            decreases thread_id@.len() - i,
        {
            path.push(thread_id[i]);
            assert(thread_id@.take(i as int).push(thread_id@[i as int]) =~= thread_id@.take(i + 1));
            i += 1;
        }
        assert(thread_id@.take(thread_id@.len() as int) =~= thread_id@);
        DetThreadId { thread_id: path }
    }

    pub fn as_slice(&self) -> (path: &[u32])
        ensures
            path@ == self@,
    {
        self.thread_id.as_slice()
    }

    /// Whether both have the same path.
    pub fn same_path(&self, other: &DetThreadId) -> (equal: bool)
        ensures
            equal == (self@ == other@),
    {
        if self.thread_id.len() != other.thread_id.len() {
            return false;
        }
        let mut i: usize = 0;
        while i < self.thread_id.len()
            invariant
                self.thread_id@.len() == other.thread_id@.len(),
                i <= self.thread_id@.len(),
                forall|j: int| 0 <= j < i ==> self.thread_id@[j] == other.thread_id@[j],
            decreases self.thread_id@.len() - i,
        {
            if self.thread_id[i] != other.thread_id[i] {
                assert(self@[i as int] != other@[i as int]);
                return false;
            }
            i += 1;
        }
        assert(self@ =~= other@);
        true
    }
}

impl Clone for DetThreadId {
    fn clone(&self) -> (id: DetThreadId)
        ensures
            id@ == self@,
    {
        DetThreadId::from(self.as_slice())
    }
}

impl PartialEq for DetThreadId {
    fn eq(&self, other: &DetThreadId) -> (equal: bool) {
        self.same_path(other)
    }
}

impl vstd::std_specs::cmp::PartialEqSpecImpl for DetThreadId {
    open spec fn obeys_eq_spec() -> bool {
        true
    }

    open spec fn eq_spec(&self, other: &DetThreadId) -> bool {
        self@ == other@
    }
}

impl Eq for DetThreadId {
}

/// The id of a thread, if it has one.
#[derive(Debug)]
pub struct MaybeId {
    pub id: Option<DetThreadId>,
}

impl View for MaybeId {
    type V = Option<Seq<u32>>;

    open spec fn view(&self) -> Option<Seq<u32>> {
        match self.id {
            Some(id) => Some(id@),
            None => None,
        }
    }
}

impl MaybeId {
    pub fn none() -> (id: MaybeId)
        ensures
            id@ is None,
    {
        MaybeId { id: None }
    }

    pub fn some(id: DetThreadId) -> (r: MaybeId)
        ensures
            r@ == Some(id@),
    {
        MaybeId { id: Some(id) }
    }

    /// Whether both are the same id, or neither is one.
    pub fn same_id(&self, other: &MaybeId) -> (equal: bool)
        ensures
            equal == (self@ == other@),
    {
        match (&self.id, &other.id) {
            (Some(a), Some(b)) => a.same_path(b),
            (None, None) => true,
            _ => false,
        }
    }
}

impl Clone for MaybeId {
    fn clone(&self) -> (id: MaybeId)
        ensures
            id@ == self@,
    {
        match &self.id {
            Some(id) => MaybeId { id: Some(id.clone()) },
            None => MaybeId { id: None },
        }
    }
}

impl PartialEq for MaybeId {
    fn eq(&self, other: &MaybeId) -> (equal: bool) {
        self.same_id(other)
    }
}

impl vstd::std_specs::cmp::PartialEqSpecImpl for MaybeId {
    open spec fn obeys_eq_spec() -> bool {
        true
    }

    open spec fn eq_spec(&self, other: &MaybeId) -> bool {
        self@ == other@
    }
}

impl Eq for MaybeId {
}

impl SenderKey for MaybeId {
    fn same(&self, other: &MaybeId) -> (equal: bool) {
        self.same_id(other)
    }

    fn copy(&self) -> (key: MaybeId) {
        self.clone()
    }
}

/// Assigns ids to the children of one thread.
#[derive(Debug)]
pub struct DetIdSpawner {
    /// Index of the next child. The first child has index zero.
    pub child_index: u32,
    /// The thread whose children these are.
    pub thread_id: DetThreadId,
}

impl DetIdSpawner {
    /// The spawner of the main thread.
    pub fn starting() -> (spawner: DetIdSpawner)
        ensures
            spawner.child_index == 0,
            spawner.thread_id@ == Seq::<u32>::empty(),
    {
        DetIdSpawner { child_index: 0, thread_id: DetThreadId { thread_id: Vec::new() } }
    }

    /// The same as `starting`.
    pub fn new() -> (spawner: DetIdSpawner)
        ensures
            spawner.child_index == 0,
            spawner.thread_id@ == Seq::<u32>::empty(),
    {
        DetIdSpawner::starting()
    }

    /// The spawner of the thread with this id.
    pub fn from(thread_id: DetThreadId) -> (spawner: DetIdSpawner)
        ensures
            spawner.child_index == 0,
            spawner.thread_id == thread_id,
    {
        DetIdSpawner { child_index: 0, thread_id }
    }

    /// The id of a new child.
    pub fn new_child_det_id(&mut self) -> (child: DetThreadId)
        requires
            old(self).child_index < u32::MAX,
        ensures
            child@ == old(self).thread_id@.push(old(self).child_index),
            final(self).child_index == old(self).child_index + 1,
            final(self).thread_id@ == old(self).thread_id@,
    {
        let mut new_thread_id = self.thread_id.clone();
        new_thread_id.extend_path(self.child_index);
        self.child_index = self.child_index + 1;
        new_thread_id
    }
}

/// What a thread knows of itself and of the run.
#[derive(Debug)]
pub struct ThreadContext {
    pub mode: RRMode,
    pub desync_mode: DesyncMode,
    pub det_id: MaybeId,
    /// The id to send messages with while they are forwarded for another thread.
    pub temp_det_id: MaybeId,
    pub forwarding: bool,
    /// The number of the next event.
    pub event_id: u32,
    /// The number of the next channel that the thread creates.
    pub channel_id: u32,
    pub spawner: DetIdSpawner,
    /// Whether the thread knows that the program is desynchronized.
    pub desynced: bool,
}

/// Mathematical value of a `ThreadContext`.
pub struct ContextView {
    pub mode: RRMode,
    pub desync_mode: DesyncMode,
    pub det_id: Option<Seq<u32>>,
    pub temp_det_id: Option<Seq<u32>>,
    pub forwarding: bool,
    pub event_id: u32,
    pub channel_id: u32,
    pub child_index: u32,
    pub spawner_id: Seq<u32>,
    pub desynced: bool,
}

impl View for ThreadContext {
    type V = ContextView;

    open spec fn view(&self) -> ContextView {
        ContextView {
            mode: self.mode,
            desync_mode: self.desync_mode,
            det_id: self.det_id@,
            temp_det_id: self.temp_det_id@,
            forwarding: self.forwarding,
            event_id: self.event_id,
            channel_id: self.channel_id,
            child_index: self.spawner.child_index,
            spawner_id: self.spawner.thread_id@,
            desynced: self.desynced,
        }
    }
}

impl ContextView {
    /// The thread once it has counted one more event.
    pub open spec fn next_event(self) -> ContextView {
        ContextView { event_id: (self.event_id + 1) as u32, ..self }
    }

    /// The same thread, aware that the program is desynchronized.
    pub open spec fn marked(self) -> ContextView {
        ContextView { desynced: true, ..self }
    }

    /// The thread once it has used up the ids of `n` more channels.
    pub open spec fn after_channels(self, n: nat) -> ContextView {
        ContextView { channel_id: ((self.channel_id + n) % 0x1_0000_0000) as u32, ..self }
    }

    /// The id that messages are sent with.
    pub open spec fn forward_id(self) -> Option<Seq<u32>> {
        if self.forwarding {
            self.temp_det_id
        } else {
            self.det_id
        }
    }
}

impl ThreadContext {
    /// A thread that has done nothing yet.
    pub fn new(mode: RRMode, desync_mode: DesyncMode, main: bool) -> (thread: ThreadContext)
        ensures
            thread@ == (ContextView {
                mode,
                desync_mode,
                det_id: if main {
                    Some(Seq::<u32>::empty())
                } else {
                    None
                },
                temp_det_id: if main {
                    Some(Seq::<u32>::empty())
                } else {
                    None
                },
                forwarding: false,
                event_id: 0,
                channel_id: 0,
                child_index: 0,
                spawner_id: Seq::<u32>::empty(),
                desynced: false,
            }),
    {
        ThreadContext {
            mode,
            desync_mode,
            det_id: MaybeId { id: DetThreadId::new(main) },
            temp_det_id: MaybeId { id: DetThreadId::new(main) },
            forwarding: false,
            event_id: 0,
            channel_id: 0,
            spawner: DetIdSpawner::starting(),
            desynced: false,
        }
    }
}

/// The id of the thread.
pub fn get_det_id(thread: &ThreadContext) -> (id: MaybeId)
    ensures
        id@ == thread@.det_id,
{
    thread.det_id.clone()
}

pub fn set_det_id(thread: &mut ThreadContext, new_id: MaybeId)
    ensures
        final(thread)@ == (ContextView { det_id: new_id@, ..old(thread)@ }),
{
    thread.det_id = new_id;
}

/// The id to send messages with while forwarding.
pub fn get_temp_det_id(thread: &ThreadContext) -> (id: MaybeId)
    ensures
        id@ == thread@.temp_det_id,
{
    thread.temp_det_id.clone()
}

pub fn set_temp_det_id(thread: &mut ThreadContext, new_id: MaybeId)
    ensures
        final(thread)@ == (ContextView { temp_det_id: new_id@, ..old(thread)@ }),
{
    thread.temp_det_id = new_id;
}

/// The number of the next event.
pub fn get_event_id(thread: &ThreadContext) -> (id: u32)
    ensures
        id == thread@.event_id,
{
    thread.event_id
}

/// Counts one more event.
pub fn inc_event_id(thread: &mut ThreadContext)
    requires
        old(thread)@.event_id < u32::MAX,
    ensures
        final(thread)@ == old(thread)@.next_event(),
{
    thread.event_id = thread.event_id + 1;
}

/// The number of a new channel.
pub fn get_and_inc_channel_id(thread: &mut ThreadContext) -> (id: u32)
    ensures
        id == old(thread)@.channel_id,
        final(thread)@ == (ContextView {
            channel_id: ((old(thread)@.channel_id + 1) % 0x1_0000_0000) as u32,
            ..old(thread)@
        }),
{
    let id: u32 = thread.channel_id;
    thread.channel_id = thread.channel_id.wrapping_add(1);
    id
}

/// Sends messages for another thread from now on.
pub fn start_forwading_id(thread: &mut ThreadContext, forwarding_id: MaybeId)
    ensures
        final(thread)@ == (ContextView {
            forwarding: true,
            temp_det_id: forwarding_id@,
            ..old(thread)@
        }),
{
    thread.forwarding = true;
    set_temp_det_id(thread, forwarding_id);
}

pub fn in_forwarding(thread: &ThreadContext) -> (forwarding: bool)
    ensures
        forwarding == thread@.forwarding,
{
    thread.forwarding
}

/// Sends messages for the thread itself from now on.
pub fn stop_forwarding_id(thread: &mut ThreadContext, original_id: MaybeId)
    ensures
        final(thread)@ == (ContextView {
            forwarding: false,
            temp_det_id: original_id@,
            ..old(thread)@
        }),
{
    thread.forwarding = false;
    set_temp_det_id(thread, original_id);
}

/// The id that messages are sent with: that of another thread while forwarding.
pub fn get_forward_id(thread: &ThreadContext) -> (id: MaybeId)
    ensures
        id@ == thread@.forward_id(),
{
    if in_forwarding(thread) {
        get_temp_det_id(thread)
    } else {
        get_det_id(thread)
    }
}

/// Assigns an id to a new child of the thread. The result is the state that the child starts with.
pub fn spawn(thread: &mut ThreadContext) -> (child: ThreadContext)
    requires
        old(thread)@.child_index < u32::MAX,
    ensures
        final(thread)@ == (ContextView {
            child_index: (old(thread)@.child_index + 1) as u32,
            ..old(thread)@
        }),
        ({
            let id = old(thread)@.spawner_id.push(old(thread)@.child_index);
            child@ == (ContextView {
                mode: old(thread)@.mode,
                desync_mode: old(thread)@.desync_mode,
                det_id: Some(id),
                temp_det_id: None,
                forwarding: false,
                event_id: 0,
                channel_id: 0,
                child_index: 0,
                spawner_id: id,
                desynced: old(thread)@.desynced,
            })
        }),
{
    let new_id = thread.spawner.new_child_det_id();
    let new_spawner = DetIdSpawner::from(new_id.clone());
    ThreadContext {
        mode: thread.mode,
        desync_mode: thread.desync_mode,
        det_id: MaybeId::some(new_id),
        temp_det_id: MaybeId::none(),
        forwarding: false,
        event_id: 0,
        channel_id: 0,
        spawner: new_spawner,
        desynced: thread.desynced,
    }
}

/// While forwarding, messages carry the id that is forwarded. Afterwards the thread is as it was
/// before, with its temporary id set to its own.
pub proof fn law_forwarding_ends(thread: ContextView, forwarded: Option<Seq<u32>>)
    requires
        !thread.forwarding,
    ensures
        ({
            let during = ContextView { forwarding: true, temp_det_id: forwarded, ..thread };
            let after = ContextView { forwarding: false, temp_det_id: thread.det_id, ..during };
            &&& during.forward_id() == forwarded
            &&& after.forward_id() == thread.forward_id()
            &&& after == (ContextView { temp_det_id: thread.det_id, ..thread })
        }),
{
}

} // verus!
