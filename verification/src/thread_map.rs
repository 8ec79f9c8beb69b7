//! Maps from deterministic thread identifiers to values.

use vstd::prelude::*;
use std::collections::VecDeque;
use crate::detthread::DetThreadId;

verus! {

/// What senders are told apart by.
pub trait SenderKey: Sized + View {
    fn same(&self, other: &Self) -> (equal: bool)
        ensures
            equal == (self@ == other@),
    ;

    fn copy(&self) -> (key: Self)
        ensures
            key@ == self@,
    ;
}

impl SenderKey for DetThreadId {
    fn same(&self, other: &DetThreadId) -> (equal: bool) {
        self.same_path(other)
    }

    fn copy(&self) -> (key: DetThreadId) {
        self.clone()
    }
}

/// A map keyed by the ids of threads.
#[derive(Debug)]
pub struct ThreadMap<I, V> {
    entries: Vec<(I, V)>,
}

/// Every channel carries a buffer where messages that should not have arrived yet are kept,
/// one queue per sender.
pub type BufferedValues<T> = ThreadMap<DetThreadId, VecDeque<T>>;

/// Some entry has the key `key`.
spec fn has_key<I: View, V>(entries: Seq<(I, V)>, key: I::V) -> bool {
    exists|i: int| 0 <= i < entries.len() && #[trigger] entries[i].0@ == key
}

/// The position of the entry with the key `key`.
spec fn position<I: View, V>(entries: Seq<(I, V)>, key: I::V) -> int {
    choose|i: int| 0 <= i < entries.len() && #[trigger] entries[i].0@ == key
}

/// No key occurs twice.
spec fn distinct_keys<I: View, V>(entries: Seq<(I, V)>) -> bool {
    forall|i: int, j: int|
        #![trigger entries[i], entries[j]]
        0 <= i < j < entries.len() ==> entries[i].0@ != entries[j].0@
}

spec fn as_map<I: View, V>(entries: Seq<(I, V)>) -> Map<I::V, V> {
    Map::new(
        |key: I::V| has_key(entries, key),
        |key: I::V| entries[position(entries, key)].1,
    )
}

proof fn lemma_at<I: View, V>(entries: Seq<(I, V)>, i: int)
    requires
        distinct_keys(entries),
        0 <= i < entries.len(),
    ensures
        as_map(entries).contains_key(entries[i].0@),
        as_map(entries)[entries[i].0@] == entries[i].1,
        position(entries, entries[i].0@) == i,
{
    let key = entries[i].0@;
    let p = position(entries, key);
    assert(entries[p].0@ == key);
    if p < i {
        assert(entries[p].0@ != entries[i].0@);
    } else if i < p {
        assert(entries[i].0@ != entries[p].0@);
    }
}

proof fn lemma_set<I: View, V>(entries: Seq<(I, V)>, i: int, value: V)
    requires
        distinct_keys(entries),
        0 <= i < entries.len(),
    ensures
        distinct_keys(entries.update(i, (entries[i].0, value))),
        as_map(entries.update(i, (entries[i].0, value))) == as_map(entries).insert(
            entries[i].0@,
            value,
        ),
{
    let after = entries.update(i, (entries[i].0, value));
    assert(distinct_keys(after));
    assert forall|key: I::V| has_key(after, key) == has_key(entries, key) by {
        if has_key(entries, key) {
            assert(after[position(entries, key)].0@ == key);
        }
        if has_key(after, key) {
            assert(entries[position(after, key)].0@ == key);
        }
    }
    assert forall|key: I::V| has_key(after, key) implies as_map(after)[key] == as_map(
        entries,
    ).insert(entries[i].0@, value)[key] by {
        let p = position(after, key);
        lemma_at(after, p);
        lemma_at(entries, p);
        lemma_at(entries, i);
    }
    lemma_at(entries, i);
    assert(as_map(after) =~= as_map(entries).insert(entries[i].0@, value));
}

proof fn lemma_push<I: View, V>(entries: Seq<(I, V)>, key: I, value: V)
    requires
        distinct_keys(entries),
        !has_key(entries, key@),
    ensures
        distinct_keys(entries.push((key, value))),
        as_map(entries.push((key, value))) == as_map(entries).insert(key@, value),
{
    let after = entries.push((key, value));
    assert(distinct_keys(after));
    assert forall|k: I::V| has_key(after, k) == (has_key(entries, k) || k == key@) by {
        if has_key(entries, k) {
            assert(after[position(entries, k)].0@ == k);
        }
        if k == key@ {
            assert(after[entries.len() as int].0@ == k);
        }
    }
    assert forall|k: I::V| has_key(after, k) implies as_map(after)[k] == as_map(entries).insert(
        key@,
        value,
    )[k] by {
        let p = position(after, k);
        lemma_at(after, p);
        if p < entries.len() {
            lemma_at(entries, p);
        }
    }
    assert(as_map(after) =~= as_map(entries).insert(key@, value));
}

proof fn lemma_remove<I: View, V>(entries: Seq<(I, V)>, i: int)
    requires
        distinct_keys(entries),
        0 <= i < entries.len(),
    ensures
        distinct_keys(entries.remove(i)),
        as_map(entries.remove(i)) == as_map(entries).remove(entries[i].0@),
{
    let after = entries.remove(i);
    let gone = entries[i].0@;
    assert forall|a: int, b: int|
        #![trigger after[a], after[b]]
        0 <= a < b < after.len() implies after[a].0@ != after[b].0@ by {
        let a0 = if a < i { a } else { a + 1 };
        let b0 = if b < i { b } else { b + 1 };
        assert(after[a] == entries[a0] && after[b] == entries[b0]);
    }
    assert forall|k: I::V| has_key(after, k) == (has_key(entries, k) && k != gone) by {
        if has_key(after, k) {
            let p = position(after, k);
            let p0 = if p < i { p } else { p + 1 };
            assert(entries[p0].0@ == k);
            if p0 < i {
                assert(entries[p0].0@ != entries[i].0@);
            } else {
                assert(entries[i].0@ != entries[p0].0@);
            }
        }
        if has_key(entries, k) && k != gone {
            let p = position(entries, k);
            let p0 = if p < i { p } else { p - 1 };
            assert(after[p0].0@ == k);
        }
    }
    assert forall|k: I::V| has_key(after, k) implies as_map(after)[k] == as_map(entries)[k] by {
        let p = position(after, k);
        let p0 = if p < i { p } else { p + 1 };
        lemma_at(after, p);
        lemma_at(entries, p0);
    }
    assert(as_map(after) =~= as_map(entries).remove(gone));
}

impl<I: View, V> View for ThreadMap<I, V> {
    type V = Map<I::V, V>;

    closed spec fn view(&self) -> Map<I::V, V> {
        as_map(self.entries@)
    }
}

impl<I: SenderKey, V> ThreadMap<I, V> {
    /// No key occurs twice.
    pub closed spec fn wf(&self) -> bool {
        distinct_keys(self.entries@)
    }

    /// The keys, in the order in which they were first inserted.
    pub closed spec fn key_order(&self) -> Seq<I::V> {
        self.entries@.map_values(|entry: (I, V)| entry.0@)
    }

    /// The keys in `key_order` are exactly the keys of the map.
    pub broadcast proof fn lemma_key_order(&self)
        requires
            self.wf(),
        ensures
            (#[trigger] self.key_order()).no_duplicates(),
            forall|key: I::V| self.key_order().contains(key) == #[trigger] self@.contains_key(key),
    {
        let order = self.key_order();
        assert forall|i: int, j: int| 0 <= i < order.len() && 0 <= j < order.len() && i != j implies order[i]
            != order[j] by {
            if i < j {
                assert(self.entries@[i].0@ != self.entries@[j].0@);
            } else {
                assert(self.entries@[j].0@ != self.entries@[i].0@);
            }
        }
        assert forall|key: I::V| order.contains(key) == #[trigger] self@.contains_key(key) by {
            if order.contains(key) {
                let i = choose|i: int| 0 <= i < order.len() && order[i] == key;
                assert(self.entries@[i].0@ == key);
            }
            if self@.contains_key(key) {
                assert(order[position(self.entries@, key)] == key);
            }
        }
    }

    pub fn new() -> (map: ThreadMap<I, V>)
        ensures
            map.wf(),
            map@ == Map::<I::V, V>::empty(),
    {
        let map = ThreadMap { entries: Vec::new() };
        assert(map@ =~= Map::<I::V, V>::empty());
        map
    }

    fn find(&self, key: &I) -> (found: Option<usize>)
        ensures
            match found {
                Some(i) => i < self.entries@.len() && self.entries@[i as int].0@ == key@,
                None => !has_key(self.entries@, key@),
            },
    {
        let mut i: usize = 0;
        while i < self.entries.len()
            invariant
                i <= self.entries@.len(),
                forall|j: int| 0 <= j < i ==> self.entries@[j].0@ != key@,
            decreases self.entries@.len() - i,
        {
            if self.entries[i].0.same(key) {
                return Some(i);
            }
            i += 1;
        }
        None
    }

    /// The number of keys.
    pub fn len(&self) -> (n: usize)
        requires
            self.wf(),
        ensures
            n == self.key_order().len(),
    {
        self.entries.len()
    }

    pub fn is_empty(&self) -> (empty: bool)
        requires
            self.wf(),
        ensures
            empty == (self@ == Map::<I::V, V>::empty()),
    {
        if self.entries.len() == 0 {
            assert(self@ =~= Map::<I::V, V>::empty());
            true
        } else {
            proof {
                lemma_at(self.entries@, 0);
                assert(self@.contains_key(self.entries@[0].0@));
            }
            false
        }
    }

    pub fn contains_key(&self, key: &I) -> (present: bool)
        requires
            self.wf(),
        ensures
            present == self@.contains_key(key@),
    {
        self.find(key).is_some()
    }

    pub fn get(&self, key: &I) -> (value: Option<&V>)
        requires
            self.wf(),
        ensures
            match value {
                Some(v) => self@.contains_key(key@) && *v == self@[key@],
                None => !self@.contains_key(key@),
            },
    {
        match self.find(key) {
            Some(i) => {
                proof {
                    lemma_at(self.entries@, i as int);
                }
                Some(&self.entries[i].1)
            },
            None => None,
        }
    }

    pub fn get_mut(&mut self, key: &I) -> (value: Option<&mut V>)
        requires
            old(self).wf(),
        ensures
            final(self).wf(),
            match value {
                Some(v) => {
                    &&& old(self)@.contains_key(key@)
                    &&& *v == old(self)@[key@]
                    &&& final(self)@ == old(self)@.insert(key@, *final(v))
                },
                None => !old(self)@.contains_key(key@) && final(self)@ == old(self)@,
            },
    {
        match self.find(key) {
            Some(i) => {
                proof {
                    lemma_at(self.entries@, i as int);
                    assert forall|value: V|
                        #![trigger self.entries@.update(i as int, (self.entries@[i as int].0, value))]
                        true implies {
                        let after = self.entries@.update(i as int, (self.entries@[i as int].0, value));
                        distinct_keys(after) && as_map(after) == as_map(self.entries@).insert(key@, value)
                    } by {
                        lemma_set(self.entries@, i as int, value);
                    }
                }
                let entry = &mut self.entries[i];
                Some(&mut entry.1)
            },
            None => None,
        }
    }

    /// Binds `key` to `value` and returns what it was bound to before.
    pub fn insert(&mut self, key: I, value: V) -> (previous: Option<V>)
        requires
            old(self).wf(),
        ensures
            final(self).wf(),
            final(self)@ == old(self)@.insert(key@, value),
            match previous {
                Some(v) => old(self)@.contains_key(key@) && v == old(self)@[key@],
                None => !old(self)@.contains_key(key@),
            },
            final(self).key_order() == if old(self)@.contains_key(key@) {
                old(self).key_order()
            } else {
                old(self).key_order().push(key@)
            },
    {
        match self.find(&key) {
            Some(i) => {
                proof {
                    lemma_at(self.entries@, i as int);
                    lemma_set(self.entries@, i as int, value);
                }
                let mut slot = value;
                std::mem::swap(&mut self.entries[i].1, &mut slot);
                assert(self.entries@ =~= old(self).entries@.update(
                    i as int,
                    (old(self).entries@[i as int].0, value),
                ));
                assert(self.key_order() =~= old(self).key_order());
                Some(slot)
            },
            None => {
                proof {
                    lemma_push(self.entries@, key, value);
                }
                self.entries.push((key, value));
                assert(self.key_order() =~= old(self).key_order().push(key@));
                None
            },
        }
    }

    /// Takes the binding of `key` out of the map.
    pub fn remove(&mut self, key: &I) -> (value: Option<V>)
        requires
            old(self).wf(),
        ensures
            final(self).wf(),
            final(self)@ == old(self)@.remove(key@),
            match value {
                Some(v) => old(self)@.contains_key(key@) && v == old(self)@[key@],
                None => !old(self)@.contains_key(key@),
            },
    {
        match self.find(key) {
            Some(i) => {
                proof {
                    lemma_at(self.entries@, i as int);
                    lemma_remove(self.entries@, i as int);
                }
                let (_, value) = self.entries.remove(i);
                Some(value)
            },
            None => {
                assert(self@.remove(key@) =~= self@);
                None
            },
        }
    }

    /// Takes some binding out of the map, or `None` from an empty map.
    pub fn pop(&mut self) -> (entry: Option<(I, V)>)
        requires
            old(self).wf(),
        ensures
            final(self).wf(),
            match entry {
                Some((key, value)) => {
                    &&& old(self)@.contains_key(key@)
                    &&& value == old(self)@[key@]
                    &&& final(self)@ == old(self)@.remove(key@)
                    &&& old(self).key_order() == seq![key@] + final(self).key_order()
                },
                None => {
                    &&& old(self)@ == Map::<I::V, V>::empty()
                    &&& final(self)@ == old(self)@
                    &&& old(self).key_order().len() == 0
                },
            },
    {
        if self.entries.len() == 0 {
            assert(self@ =~= Map::<I::V, V>::empty());
            None
        } else {
            proof {
                lemma_at(self.entries@, 0);
                lemma_remove(self.entries@, 0);
            }
            let entry = self.entries.remove(0);
            assert(old(self).key_order() =~= seq![entry.0@] + self.key_order());
            Some(entry)
        }
    }
}

/// The queues of a buffer, by sender.
pub open spec fn contents<I: View, T>(buffer: ThreadMap<I, VecDeque<T>>) -> Map<I::V, Seq<T>> {
    Map::new(|sender: I::V| buffer@.contains_key(sender), |sender: I::V| buffer@[sender]@)
}

/// The messages that are kept for `sender`, oldest first.
pub open spec fn queue_of<K, T>(queues: Map<K, Seq<T>>, sender: K) -> Seq<T> {
    if queues.contains_key(sender) {
        queues[sender]
    } else {
        Seq::<T>::empty()
    }
}

/// The queues once `msg` from `sender` is kept too.
pub open spec fn keep<K, T>(queues: Map<K, Seq<T>>, sender: K, msg: T) -> Map<K, Seq<T>> {
    queues.insert(sender, queue_of(queues, sender).push(msg))
}

/// The queues once the oldest message from `sender` is gone.
pub open spec fn dequeue<K, T>(queues: Map<K, Seq<T>>, sender: K) -> Map<K, Seq<T>> {
    queues.insert(sender, queue_of(queues, sender).drop_first())
}

/// No message is kept.
pub open spec fn all_empty<K, T>(queues: Map<K, Seq<T>>) -> bool {
    forall|sender: K| (#[trigger] queue_of(queues, sender)).len() == 0
}

/// Some sender's oldest message is `msg`, and `after` holds the rest.
pub open spec fn took_some<K, T>(
    queues: Map<K, Seq<T>>,
    msg: T,
    after: Map<K, Seq<T>>,
) -> bool {
    exists|sender: K|
        {
            &&& (#[trigger] queue_of(queues, sender)).len() > 0
            &&& msg == queue_of(queues, sender)[0]
            &&& after == dequeue(queues, sender)
        }
}

/// The messages `msgs` were taken one after the other, each the oldest of some sender.
pub open spec fn taken<K, T>(
    queues: Map<K, Seq<T>>,
    msgs: Seq<T>,
    after: Map<K, Seq<T>>,
) -> bool
    decreases msgs.len(),
{
    if msgs.len() == 0 {
        after == queues
    } else {
        exists|mid: Map<K, Seq<T>>|
            {
                &&& taken(queues, msgs.drop_last(), mid)
                &&& #[trigger] took_some(mid, msgs.last(), after)
            }
    }
}

proof fn lemma_take<K, T>(
    queues: Map<K, Seq<T>>,
    msgs: Seq<T>,
    mid: Map<K, Seq<T>>,
    msg: T,
    after: Map<K, Seq<T>>,
)
    requires
        taken(queues, msgs, mid),
        took_some(mid, msg, after),
    ensures
        taken(queues, msgs.push(msg), after),
{
    assert(msgs.push(msg).drop_last() =~= msgs);
    assert(took_some(mid, msgs.push(msg).last(), after));
}

/// The messages `msgs` are all that is kept, those of one sender in the order in which they came.
pub open spec fn drained<K, T>(queues: Map<K, Seq<T>>, msgs: Seq<T>) -> bool {
    exists|after: Map<K, Seq<T>>| #[trigger] taken(queues, msgs, after) && all_empty(after)
}

impl<I: SenderKey, T> ThreadMap<I, VecDeque<T>> {
    /// Keeps `msg` behind the other messages from `sender`.
    pub fn push_message(&mut self, sender: I, msg: T)
        requires
            old(self).wf(),
        ensures
            final(self).wf(),
            contents(*final(self)) == keep(contents(*old(self)), sender@, msg),
    {
        let ghost before = contents(*self);
        match self.find(&sender) {
            Some(i) => {
                proof {
                    lemma_at(self.entries@, i as int);
                }
                let mut queue: VecDeque<T> = VecDeque::new();
                std::mem::swap(&mut self.entries[i].1, &mut queue);
                queue.push_back(msg);
                proof {
                    lemma_set(old(self).entries@, i as int, queue);
                }
                std::mem::swap(&mut self.entries[i].1, &mut queue);
                assert(self.entries@ =~= old(self).entries@.update(
                    i as int,
                    (old(self).entries@[i as int].0, self.entries@[i as int].1),
                ));
                assert(contents(*self) =~= keep(before, sender@, msg));
            },
            None => {
                let mut queue: VecDeque<T> = VecDeque::new();
                queue.push_back(msg);
                proof {
                    lemma_push(self.entries@, sender, queue);
                    assert(Seq::<T>::empty().push(msg) =~= queue@);
                }
                self.entries.push((sender, queue));
                assert(contents(*self) =~= keep(before, sender@, msg));
            },
        }
    }

    /// Takes the message at the front of the queue at position `i`.
    fn pop_at(&mut self, i: usize) -> (msg: Option<T>)
        requires
            old(self).wf(),
            i < old(self).entries@.len(),
        ensures
            final(self).wf(),
            final(self).entries@.len() == old(self).entries@.len(),
            forall|j: int|
                0 <= j < old(self).entries@.len() && j != i ==> #[trigger] final(self).entries@[j]
                    == old(self).entries@[j],
            msg is Some ==> final(self).entries@[i as int].1@.len() + 1
                == old(self).entries@[i as int].1@.len(),
            ({
                let sender = old(self).entries@[i as int].0@;
                let queues = contents(*old(self));
                &&& queues.contains_key(sender)
                &&& queues[sender] == old(self).entries@[i as int].1@
                &&& match msg {
                    Some(m) => {
                        &&& queue_of(queues, sender).len() > 0
                        &&& m == queue_of(queues, sender)[0]
                        &&& contents(*final(self)) == dequeue(queues, sender)
                    },
                    None => {
                        &&& queue_of(queues, sender).len() == 0
                        &&& *final(self) == *old(self)
                    },
                }
            }),
    {
        proof {
            lemma_at(self.entries@, i as int);
        }
        if self.entries[i].1.len() == 0 {
            return None;
        }
        let mut queue: VecDeque<T> = VecDeque::new();
        std::mem::swap(&mut self.entries[i].1, &mut queue);
        let msg = queue.pop_front();
        proof {
            lemma_set(old(self).entries@, i as int, queue);
        }
        std::mem::swap(&mut self.entries[i].1, &mut queue);
        assert(self.entries@ =~= old(self).entries@.update(
            i as int,
            (old(self).entries@[i as int].0, self.entries@[i as int].1),
        ));
        let ghost sender = old(self).entries@[i as int].0@;
        assert(self.entries@[i as int].1@ =~= queue_of(contents(*old(self)), sender).drop_first());
        assert(contents(*self) =~= dequeue(contents(*old(self)), sender));
        msg
    }

    /// Takes the oldest message from `sender`.
    pub fn pop_message(&mut self, sender: &I) -> (msg: Option<T>)
        requires
            old(self).wf(),
        ensures
            final(self).wf(),
            match msg {
                Some(m) => {
                    &&& queue_of(contents(*old(self)), sender@).len() > 0
                    &&& m == queue_of(contents(*old(self)), sender@)[0]
                    &&& contents(*final(self)) == dequeue(contents(*old(self)), sender@)
                },
                None => {
                    &&& queue_of(contents(*old(self)), sender@).len() == 0
                    &&& *final(self) == *old(self)
                },
            },
    {
        match self.find(sender) {
            Some(i) => self.pop_at(i),
            None => None,
        }
    }

    /// There is a message from `sender`.
    pub fn has_message(&self, sender: &I) -> (found: bool)
        requires
            self.wf(),
        ensures
            found == (queue_of(contents(*self), sender@).len() > 0),
    {
        match self.get(sender) {
            Some(queue) => queue.len() > 0,
            None => false,
        }
    }

    /// There is a message from any sender.
    pub fn has_any_message(&self) -> (found: bool)
        requires
            self.wf(),
        ensures
            found == !all_empty(contents(*self)),
    {
        let mut i: usize = 0;
        while i < self.entries.len()
            invariant
                self.wf(),
                i <= self.entries@.len(),
                forall|j: int| 0 <= j < i ==> (#[trigger] self.entries@[j]).1@.len() == 0,
            decreases self.entries@.len() - i,
        {
            if self.entries[i].1.len() > 0 {
                proof {
                    lemma_at(self.entries@, i as int);
                    assert(queue_of(contents(*self), self.entries@[i as int].0@).len() > 0);
                }
                return true;
            }
            i += 1;
        }
        assert forall|sender: I::V| (#[trigger] queue_of(contents(*self), sender)).len() == 0 by {
            if self@.contains_key(sender) {
                lemma_at(self.entries@, position(self.entries@, sender));
            }
        }
        false
    }

    /// Takes all messages, those of one sender in the order in which they came.
    pub fn drain_messages(&mut self) -> (msgs: Vec<T>)
        requires
            old(self).wf(),
        ensures
            final(self).wf(),
            all_empty(contents(*final(self))),
            taken(contents(*old(self)), msgs@, contents(*final(self))),
            drained(contents(*old(self)), msgs@),
    {
        let mut msgs: Vec<T> = Vec::new();
        let mut i: usize = 0;
        while i < self.entries.len()
            invariant
                self.wf(),
                i <= self.entries@.len(),
                taken(contents(*old(self)), msgs@, contents(*self)),
                forall|j: int| 0 <= j < i ==> (#[trigger] self.entries@[j]).1@.len() == 0,
            decreases
                self.entries@.len() - i,
                if i < self.entries@.len() {
                    self.entries@[i as int].1@.len()
                } else {
                    0
                },
        {
            let ghost mid = contents(*self);
            let ghost before = msgs@;
            match self.pop_at(i) {
                Some(msg) => {
                    msgs.push(msg);
                    proof {
                        lemma_take(contents(*old(self)), before, mid, msg, contents(*self));
                    }
                },
                None => {
                    i += 1;
                },
            }
        }
        assert forall|sender: I::V| (#[trigger] queue_of(contents(*self), sender)).len() == 0 by {
            if self@.contains_key(sender) {
                lemma_at(self.entries@, position(self.entries@, sender));
            }
        }
        msgs
    }

    /// Takes the oldest message of some sender, whoever it is.
    pub fn pop_any_message(&mut self) -> (msg: Option<T>)
        requires
            old(self).wf(),
        ensures
            final(self).wf(),
            match msg {
                Some(m) => took_some(contents(*old(self)), m, contents(*final(self))),
                None => all_empty(contents(*old(self))) && *final(self) == *old(self),
            },
    {
        let mut i: usize = 0;
        while i < self.entries.len()
            invariant
                self.wf(),
                *self == *old(self),
                i <= self.entries@.len(),
                forall|j: int| 0 <= j < i ==> (#[trigger] self.entries@[j]).1@.len() == 0,
            decreases self.entries@.len() - i,
        {
            if self.entries[i].1.len() > 0 {
                return self.pop_at(i);
            }
            i += 1;
        }
        assert forall|sender: I::V| (#[trigger] queue_of(contents(*self), sender)).len() == 0 by {
            if self@.contains_key(sender) {
                lemma_at(self.entries@, position(self.entries@, sender));
            }
        }
        None
    }
}

} // verus!
