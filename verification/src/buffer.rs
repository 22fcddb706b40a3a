//! The recent-event buffer: a fixed-capacity ring keyed by file stem,
//! letting a task's predicate consult the immediately preceding event kind
//! for the same logical file. Entries are read-then-removed on lookup, so
//! each recorded event is consulted at most once; the oldest entry is
//! evicted when the ring is full.

use vstd::prelude::*;

use crate::events::EventKind;

verus! {

/// Capacity of the recent-event buffer.
pub const EVENT_BUFFER_CAPACITY: usize = 9;

/// First index in `entries` holding `key`, or `-1` when none does.
pub open spec fn find_key(entries: Seq<(Seq<char>, EventKind)>, key: Seq<char>) -> int
    decreases entries.len(),
{
    if entries.len() == 0 {
        -1
    } else if entries.first().0 == key {
        0
    } else {
        let r = find_key(entries.drop_first(), key);
        if r == -1 {
            -1
        } else {
            r + 1
        }
    }
}

pub proof fn lemma_find_key_bounds(entries: Seq<(Seq<char>, EventKind)>, key: Seq<char>)
    ensures
        -1 <= find_key(entries, key) < entries.len(),
        find_key(entries, key) >= 0 ==> entries[find_key(entries, key)].0 == key,
        find_key(entries, key) == -1 ==> forall|i: int|
            0 <= i < entries.len() ==> (#[trigger] entries[i]).0 != key,
    decreases entries.len(),
{
    if entries.len() > 0 && entries.first().0 != key {
        let t = entries.drop_first();
        lemma_find_key_bounds(t, key);
        assert forall|i: int| 1 <= i < entries.len() implies #[trigger] entries[i] == t[i - 1] by {}
        if find_key(entries, key) == -1 {
            assert forall|i: int| 0 <= i < entries.len() implies (#[trigger] entries[i]).0
                != key by {
                if i >= 1 {
                    assert(t[i - 1].0 != key);
                }
            }
        }
    }
}

/// The recent-event ring: stem and event kind of the latest events, oldest
/// first, holding at most `cap` entries.
pub struct Buffer {
    entries: Vec<(String, EventKind)>,
    cap: usize,
}

impl Buffer {
    /// The entries as plain values, oldest first.
    pub closed spec fn view(&self) -> Seq<(Seq<char>, EventKind)> {
        Seq::new(self.entries@.len(), |i: int| (self.entries@[i].0@, self.entries@[i].1))
    }

    /// The capacity the buffer was created with.
    pub closed spec fn spec_cap(&self) -> int {
        self.cap as int
    }

    /// The ring never exceeds its capacity.
    pub closed spec fn wf(&self) -> bool {
        self.cap > 0 && self.entries@.len() <= self.cap
    }

    /// An empty ring with the given capacity.
    pub fn with_capacity(capacity: usize) -> (r: Buffer)
        requires
            capacity > 0,
        ensures
            r.wf(),
            r.spec_cap() == capacity,
            r@ =~= Seq::<(Seq<char>, EventKind)>::empty(),
    {
        Buffer { entries: Vec::new(), cap: capacity }
    }

    /// An empty ring with the default capacity.
    pub fn new() -> (r: Buffer)
        ensures
            r.wf(),
            r.spec_cap() == EVENT_BUFFER_CAPACITY,
            r@ =~= Seq::<(Seq<char>, EventKind)>::empty(),
    {
        Buffer::with_capacity(EVENT_BUFFER_CAPACITY)
    }

    /// Records the latest event kind seen for a stem, evicting the oldest
    /// entry when the ring is full.
    pub fn push(&mut self, stem: String, kind: EventKind)
        requires
            old(self).wf(),
        ensures
            final(self).wf(),
            final(self).spec_cap() == old(self).spec_cap(),
            final(self)@ == if old(self)@.len() == old(self).spec_cap() {
                old(self)@.drop_first().push((stem@, kind))
            } else {
                old(self)@.push((stem@, kind))
            },
    {
        let ghost before = self@;
        if self.entries.len() == self.cap {
            self.entries.remove(0);
            proof {
                assert(self@ =~= before.drop_first());
            }
        }
        let ghost mid = self@;
        self.entries.push((stem, kind));
        proof {
            assert(self@ =~= mid.push((stem@, kind)));
        }
    }

    /// Looks up and removes the buffered previous event kind for a stem:
    /// the one-shot "previous event" consultation.
    pub fn get_with_key(&mut self, needle: &String) -> (r: Option<EventKind>)
        requires
            old(self).wf(),
        ensures
            final(self).wf(),
            final(self).spec_cap() == old(self).spec_cap(),
            ({
                let at = find_key(old(self)@, needle@);
                if at >= 0 {
                    r == Some(old(self)@[at].1) && final(self)@ == old(self)@.remove(at)
                } else {
                    r is None && final(self)@ == old(self)@
                }
            }),
    {
        proof {
            lemma_find_key_bounds(self@, needle@);
        }
        let ghost before = self@;
        let mut i: usize = 0;
        while i < self.entries.len()
            invariant
                0 <= i <= self.entries.len(),
                old(self).wf(),
                *self == *old(self),
                self@ == before,
                forall|j: int| 0 <= j < i ==> (#[trigger] before[j]).0 != needle@,
            decreases self.entries.len() - i,
        {
            if self.entries[i].0 == *needle {
                proof {
                    assert(before[i as int] == (self.entries@[i as int].0@, self.entries@[
                        i as int
                    ].1));
                    lemma_find_key_first(before, needle@, i as int);
                }
                let entry = self.entries.remove(i);
                proof {
                    assert(entry.1 == before[i as int].1);
                    assert(self@ =~= before.remove(i as int));
                    assert(self.wf());
                }
                return Some(entry.1);
            }
            proof {
                assert(before[i as int] == (self.entries@[i as int].0@, self.entries@[
                    i as int
                ].1));
            }
            i += 1;
        }
        proof {
            if find_key(before, needle@) >= 0 {
                assert(before[find_key(before, needle@)].0 == needle@);
            }
        }
        None
    }
}

impl Default for Buffer {
    /// An empty ring with the default capacity.
    fn default() -> (r: Buffer)
        ensures
            r.wf(),
            r.spec_cap() == EVENT_BUFFER_CAPACITY,
            r@ =~= Seq::<(Seq<char>, EventKind)>::empty(),
    {
        Buffer::with_capacity(EVENT_BUFFER_CAPACITY)
    }
}

/// A first match at `i` with no earlier match pins `find_key` to `i`.
proof fn lemma_find_key_first(entries: Seq<(Seq<char>, EventKind)>, key: Seq<char>, i: int)
    requires
        0 <= i < entries.len(),
        entries[i].0 == key,
        forall|j: int| 0 <= j < i ==> (#[trigger] entries[j]).0 != key,
    ensures
        find_key(entries, key) == i,
    decreases i,
{
    if i == 0 {
    } else {
        let t = entries.drop_first();
        assert(forall|j: int| 0 <= j < t.len() ==> t[j] == entries[j + 1]);
        lemma_find_key_first(t, key, i - 1);
    }
}

} // verus!
