//! Properties of the ids of threads and channels.

use vstd::prelude::*;
use crate::detthread::{is_path, MAX_SIZE, SpawnerView, ThreadView};
use crate::ipc_message::{id_numbers, id_size, sender_of};
use crate::rr::{ChannelIdView, DetChannelId};
use crate::wire::le_value;

verus! {

/// The spawner once it has assigned `n` more ids.
pub open spec fn nth_spawner(spawner: SpawnerView, n: nat) -> SpawnerView
    decreases n,
{
    if n == 0 {
        spawner
    } else {
        nth_spawner(spawner, (n - 1) as nat).advance()
    }
}

/// The children of one thread are numbered in the order in which they are spawned: the id of the
/// child number `n` is that of its parent, followed by the index `child_index + n`.
pub proof fn law_children_are_numbered(spawner: SpawnerView, n: nat)
    requires
        spawner.child_index + n <= u32::MAX,
    ensures
        nth_spawner(spawner, n).next_child() == spawner.thread_id.push(
            (spawner.child_index + n) as u32,
        ),
        nth_spawner(spawner, n).thread_id == spawner.thread_id,
        nth_spawner(spawner, n).child_index == spawner.child_index + n,
    decreases n,
{
    if n > 0 {
        law_children_are_numbered(spawner, (n - 1) as nat);
    }
}

/// Two threads have the same id only if they have the same parent and the same index among its
/// children.
pub proof fn law_child_id_determines_parent(
    parent1: Seq<u32>,
    index1: u32,
    parent2: Seq<u32>,
    index2: u32,
)
    requires
        parent1.push(index1) == parent2.push(index2),
    ensures
        parent1 == parent2,
        index1 == index2,
{
    assert(parent1.push(index1).drop_last() =~= parent1);
    assert(parent2.push(index2).drop_last() =~= parent2);
    assert(parent1.push(index1).last() == index1);
    assert(parent2.push(index2).last() == index2);
}

/// No two children of one thread have the same id, and none has the id of its parent.
pub proof fn law_children_are_distinct(spawner: SpawnerView, n: nat, m: nat)
    requires
        n < m,
        spawner.child_index + m <= u32::MAX,
    ensures
        nth_spawner(spawner, n).next_child() != nth_spawner(spawner, m).next_child(),
        nth_spawner(spawner, n).next_child() != spawner.thread_id,
{
    law_children_are_numbered(spawner, n);
    law_children_are_numbered(spawner, m);
    let a = nth_spawner(spawner, n).next_child();
    let b = nth_spawner(spawner, m).next_child();
    assert(a.last() != b.last());
    assert(a.len() == spawner.thread_id.len() + 1);
}

/// The id of a thread's first child does not depend on anything but the id of the thread: it is
/// followed by the index one.
pub proof fn law_first_child(thread: ThreadView)
    requires
        thread.spawner is None,
    ensures
        thread.current_spawner().next_child() == thread.det_id.push(1),
{
}

/// The thread once it has created `n` more channels.
pub open spec fn nth_creation(thread: ThreadView, n: nat) -> ThreadView
    decreases n,
{
    if n == 0 {
        thread
    } else {
        DetChannelId::after_new(nth_creation(thread, (n - 1) as nat))
    }
}

/// The channels of one thread are numbered in the order in which they are created, modulo the size
/// of the counter.
pub proof fn law_channels_are_numbered(thread: ThreadView, n: nat)
    ensures
        DetChannelId::next_view(nth_creation(thread, n)) == (ChannelIdView {
            thread: thread.det_id,
            channel: ((thread.next_channel_id + n) % 0x1_0000_0000) as u32,
        }),
    decreases n,
{
    if n > 0 {
        law_channels_are_numbered(thread, (n - 1) as nat);
        let k = thread.next_channel_id + n - 1;
        assert(((k % 0x1_0000_0000) + 1) % 0x1_0000_0000 == (k + 1) % 0x1_0000_0000)
            by (nonlinear_arith)
            requires
                k >= 0,
        ;
    }
}

/// No two of fewer than 2^32 channels that one thread creates have the same id.
pub proof fn law_channels_are_distinct(thread: ThreadView, n: nat, m: nat)
    requires
        n < m < n + 0x1_0000_0000,
    ensures
        DetChannelId::next_view(nth_creation(thread, n)) != DetChannelId::next_view(
            nth_creation(thread, m),
        ),
{
    law_channels_are_numbered(thread, n);
    law_channels_are_numbered(thread, m);
    let a = thread.next_channel_id + n;
    let b = thread.next_channel_id + m;
    assert(a % 0x1_0000_0000 != b % 0x1_0000_0000) by (nonlinear_arith)
        requires
            0 <= a < b < a + 0x1_0000_0000,
    ;
}

/// Channels of threads with different ids have different ids.
pub proof fn law_channels_of_different_threads(thread1: ThreadView, thread2: ThreadView)
    requires
        thread1.det_id != thread2.det_id,
    ensures
        DetChannelId::next_view(thread1) != DetChannelId::next_view(thread2),
{
}

/// The number `value` in `len` bytes, least significant first.
pub open spec fn le_bytes(value: int, len: nat) -> Seq<u8>
    decreases len,
{
    if len == 0 {
        Seq::<u8>::empty()
    } else {
        seq![(value % 256) as u8] + le_bytes(value / 256, (len - 1) as nat)
    }
}

/// The number at position `i` of a path, and zero behind its end.
pub open spec fn number_at(path: Seq<u32>, i: int) -> int {
    if i < path.len() {
        path[i] as int
    } else {
        0
    }
}

/// The first `n` numbers of a path in four bytes each.
pub open spec fn path_bytes(path: Seq<u32>, n: nat) -> Seq<u8>
    decreases n,
{
    if n == 0 {
        Seq::<u8>::empty()
    } else {
        path_bytes(path, (n - 1) as nat) + le_bytes(number_at(path, n - 1), 4)
    }
}

/// The bytes that a message from the thread with the id `path` starts with.
pub open spec fn id_bytes(path: Seq<u32>) -> Seq<u8> {
    path_bytes(path, 10) + le_bytes(path.len() as int, 8)
}

/// 256 to the power of `len`.
pub open spec fn bound(len: nat) -> int
    decreases len,
{
    if len == 0 {
        1
    } else {
        256 * bound((len - 1) as nat)
    }
}

proof fn lemma_le_bytes(value: int, len: nat)
    requires
        0 <= value < bound(len),
    ensures
        le_bytes(value, len).len() == len,
        le_value(le_bytes(value, len)) == value,
    decreases len,
{
    if len > 0 {
        let rest = (len - 1) as nat;
        assert(0 <= value / 256 < bound(rest)) by (nonlinear_arith)
            requires
                0 <= value < 256 * bound(rest),
        ;
        lemma_le_bytes(value / 256, rest);
        let bytes = le_bytes(value, len);
        assert(bytes.drop_first() =~= le_bytes(value / 256, rest));
        assert(bytes[0] == value % 256);
        assert(value == value % 256 + 256 * (value / 256)) by (nonlinear_arith);
    }
}

proof fn lemma_bounds()
    ensures
        bound(4) == 0x1_0000_0000,
        bound(8) == 0x1_0000_0000 * 0x1_0000_0000,
{
    reveal_with_fuel(bound, 9);
}

proof fn lemma_path_bytes(path: Seq<u32>, n: nat)
    ensures
        path_bytes(path, n).len() == 4 * n,
        forall|i: int|
            0 <= i < n ==> (#[trigger] path_bytes(path, n).subrange(4 * i, 4 * i + 4)) == le_bytes(
                number_at(path, i),
                4,
            ),
    decreases n,
{
    if n > 0 {
        let earlier = path_bytes(path, (n - 1) as nat);
        lemma_path_bytes(path, (n - 1) as nat);
        lemma_bounds();
        lemma_le_bytes(number_at(path, n - 1), 4);
        let all = path_bytes(path, n);
        assert forall|i: int| 0 <= i < n implies (#[trigger] all.subrange(4 * i, 4 * i + 4))
            == le_bytes(number_at(path, i), 4) by {
            if i < n - 1 {
                assert(all.subrange(4 * i, 4 * i + 4) =~= earlier.subrange(4 * i, 4 * i + 4));
            } else {
                assert(all.subrange(4 * i, 4 * i + 4) =~= le_bytes(number_at(path, i), 4));
            }
        }
    }
}

/// The sender of a message is read back from its first bytes, whatever follows them.
pub proof fn law_sender_is_read_back(path: Seq<u32>, payload: Seq<u8>)
    requires
        path.len() <= MAX_SIZE,
    ensures
        sender_of(id_bytes(path) + payload) == Some(path),
{
    let data = id_bytes(path) + payload;
    let head = path_bytes(path, 10);
    lemma_path_bytes(path, 10);
    lemma_bounds();
    lemma_le_bytes(path.len() as int, 8);
    assert(data.subrange(40, 48) =~= le_bytes(path.len() as int, 8));
    assert(id_size(data) == path.len());
    let numbers = id_numbers(data);
    assert forall|i: int| 0 <= i < 10 implies #[trigger] numbers[i] == number_at(path, i) by {
        assert(data.subrange(4 * i, 4 * i + 4) =~= head.subrange(4 * i, 4 * i + 4));
        lemma_le_bytes(number_at(path, i), 4);
    }
    assert(is_path(numbers, id_size(data)));
    assert(numbers.subrange(0, path.len() as int) =~= path);
}

} // verus!
