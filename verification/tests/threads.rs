//! Thread ids, and the events of spawned threads.

use rr_channel::desync::{mark_program_as_desynced, program_desyned, DesyncMode};
use rr_channel::detthread::{
    generate_new_child_id, get_det_id, init_foreign_thread, initialize_new_thread, Builder,
    DetIdSpawner, DetThreadId, ThreadState,
};
use rr_channel::error::DesyncError;
use rr_channel::global_log::GlobalRecorder;
use rr_channel::recordlog::{ChannelVariant, RecordEntry, TivoEvent};
use rr_channel::rr::DetChannelId;
use rr_channel::{EventRecorder, RRMode, Tivo};
use std::collections::VecDeque;

fn new_thread(mode: RRMode, recorder: EventRecorder) -> ThreadState {
    ThreadState::new(mode, DesyncMode::Panic, recorder)
}

fn no_rr() -> ThreadState {
    let mut thread = new_thread(RRMode::NoRR, EventRecorder::get_global_recorder());
    Tivo::init_tivo_thread_root_test(&mut thread);
    thread
}

fn spawn(parent: &mut ThreadState) -> ThreadState {
    let spawned = Builder::new().spawn(parent).unwrap();
    let mut child = new_thread(RRMode::NoRR, EventRecorder::get_global_recorder());
    initialize_new_thread(&mut child, spawned.id);
    child
}

#[test]
fn thread_id_assignment() {
    let mut root = no_rr();
    assert_eq!(get_det_id(&root).as_slice(), &[] as &[u32]);
    let mut h1 = spawn(&mut root);
    assert_eq!(get_det_id(&h1).as_slice(), &[1]);
    let mut h2 = spawn(&mut h1);
    assert_eq!(get_det_id(&h2).as_slice(), &[1, 1]);
    let h3 = spawn(&mut h2);
    assert_eq!(get_det_id(&h3).as_slice(), &[1, 1, 1]);
    let mut h4 = spawn(&mut h2);
    assert_eq!(get_det_id(&h4).as_slice(), &[1, 1, 2]);
    let h5 = spawn(&mut h4);
    assert_eq!(get_det_id(&h5).as_slice(), &[1, 1, 2, 1]);
}

#[test]
fn thread_ids_depend_on_the_parent_only() {
    let mut root = no_rr();
    let mut children: Vec<ThreadState> = (0..14).map(|_| spawn(&mut root)).collect();
    // The order in which the children spawn their own children does not matter.
    children.reverse();
    for (i, child) in children.iter_mut().enumerate() {
        let i = 14 - i as u32;
        assert_eq!(get_det_id(child).as_slice(), &[i]);
        for j in 1..=4 {
            assert_eq!(get_det_id(&spawn(child)).as_slice(), &[i, j]);
        }
    }
}

#[test]
fn foreign_thread_spawn() {
    let mut root = no_rr();
    let child_id = generate_new_child_id(&mut root);
    let mut foreign = new_thread(RRMode::NoRR, EventRecorder::get_global_recorder());
    assert!(!foreign.initialized);
    init_foreign_thread(&mut foreign, child_id);
    assert!(foreign.initialized);
    assert_eq!(get_det_id(&foreign).as_slice(), &[1]);
    // The next child has the next id.
    assert_eq!(generate_new_child_id(&mut root).as_slice(), &[2]);
}

#[test]
fn spawner_counts_from_one() {
    let root = no_rr();
    let mut spawner = DetIdSpawner::starting(&root);
    assert_eq!(spawner.child_index, 1);
    assert_eq!(spawner.new_child_det_id().as_slice(), &[1]);
    assert_eq!(spawner.new_child_det_id().as_slice(), &[2]);
    assert_eq!(spawner.child_index, 3);
}

#[test]
fn ids_are_compared_by_their_paths() {
    let mut id = DetThreadId::new();
    assert_eq!(id, DetThreadId::default());
    id.extend_path(3);
    id.extend_path(0);
    assert_eq!(id, DetThreadId::from(&[3, 0]));
    assert_ne!(id, DetThreadId::from(&[3]));
    assert_ne!(id, DetThreadId::from(&[3, 1]));
    assert_eq!(id.clone(), id);
    let longest = DetThreadId::from(&[1, 2, 3, 4, 5, 6, 7, 8, 9, 10]);
    assert_eq!(longest.as_slice().len(), 10);
}

#[test]
fn parts_of_an_id() {
    let numbers = [7, 8, 0, 0, 0, 0, 0, 0, 0, 0];
    assert_eq!(
        DetThreadId::from_parts(numbers, 2),
        Some(DetThreadId::from(&[7, 8]))
    );
    assert_eq!(
        DetThreadId::from_parts(numbers, 3),
        Some(DetThreadId::from(&[7, 8, 0]))
    );
    assert_eq!(DetThreadId::from_parts(numbers, 1), None);
    assert_eq!(DetThreadId::from_parts(numbers, 11), None);
}

fn spawn_entry(id: &[u32]) -> RecordEntry {
    RecordEntry::new(
        TivoEvent::ThreadInitialized(DetThreadId::from(id)),
        ChannelVariant::NoChannel,
        DetChannelId::fake(),
        "Thread".to_string(),
    )
}

#[test]
fn spawned_threads_are_recorded() {
    let mut recorder = GlobalRecorder::init_no_file();
    let log = recorder.start_thread(DetThreadId::new());
    let mut root = new_thread(RRMode::Record, log);
    Tivo::init_tivo_thread_root_test(&mut root);
    let spawned = Builder::new()
        .name("worker".to_string())
        .stack_size(4096)
        .spawn(&mut root)
        .unwrap();
    assert_eq!(spawned.id.as_slice(), &[1]);
    assert_eq!(spawned.name, Some("worker".to_string()));
    assert_eq!(spawned.stack_size, Some(4096));
    Builder::default().spawn(&mut root).unwrap();
    let entries = recorder.get_all_entries();
    let expected = VecDeque::from(vec![spawn_entry(&[1]), spawn_entry(&[2])]);
    assert_eq!(entries.get(&DetThreadId::new()), Some(&expected));
}

#[test]
fn spawned_threads_are_checked_on_replay() {
    let log = VecDeque::from(vec![spawn_entry(&[1]), spawn_entry(&[7])]);
    let mut root = new_thread(RRMode::Replay, EventRecorder::replaying(log));
    Tivo::init_tivo_thread_root_test(&mut root);
    assert!(Builder::new().spawn(&mut root).is_ok());
    assert_eq!(
        Builder::new().spawn(&mut root).err(),
        Some(DesyncError::EventMismatch(
            TivoEvent::ThreadInitialized(DetThreadId::from(&[7])),
            TivoEvent::ThreadInitialized(DetThreadId::from(&[2])),
        ))
    );
    assert_eq!(
        Builder::new().spawn(&mut root).err(),
        Some(DesyncError::NoEntryInLog)
    );
}

#[test]
fn desynchronization_is_news_only_once() {
    let mut root = no_rr();
    assert!(!program_desyned(&root));
    assert!(mark_program_as_desynced(&mut root));
    assert!(program_desyned(&root));
    assert!(!mark_program_as_desynced(&mut root));
    assert!(program_desyned(&root));
}
