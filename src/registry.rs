//! The set of live trackers, kept in insertion order and indexed by the
//! caller's identifiers, with a count of consecutive low-confidence frames
//! for each.
use vstd::prelude::*;

verus! {

broadcast use vstd::seq_lib::group_filter_ensures;

/// One tracked object: its identifier, how many frames in a row it has
/// missed the confidence threshold, and the tracker itself.
pub struct TrackerRecord<T> {
    pub id: u32,
    pub misses: u32,
    pub tracker: T,
}

/// A record for a tracker that has just been (re)trained.
pub open spec fn fresh_record<T>(id: u32, tracker: T) -> TrackerRecord<T> {
    TrackerRecord { id, misses: 0, tracker }
}

/// Some record of `s` carries `id`.
pub open spec fn has_id<T>(s: Seq<TrackerRecord<T>>, id: u32) -> bool {
    exists|i: int| 0 <= i < s.len() && s[i].id == id
}

/// No identifier occurs twice.
pub open spec fn ids_distinct<T>(s: Seq<TrackerRecord<T>>) -> bool {
    forall|i: int, j: int| 0 <= i < j < s.len() ==> s[i].id != s[j].id
}

/// The identifiers present, as a set.
pub open spec fn id_set<T>(s: Seq<TrackerRecord<T>>) -> Set<u32> {
    Set::new(|id: u32| has_id(s, id))
}

/// Where `id` sits in `s`, when it is present.
pub open spec fn position_of<T>(s: Seq<TrackerRecord<T>>, id: u32) -> int {
    choose|i: int| 0 <= i < s.len() && s[i].id == id
}

/// The records after `tracker` is installed under `id`: a record with that
/// identifier is replaced where it stands, otherwise the new record goes last.
pub open spec fn with_target<T>(s: Seq<TrackerRecord<T>>, id: u32, tracker: T) -> Seq<
    TrackerRecord<T>,
> {
    if has_id(s, id) {
        s.update(position_of(s, id), fresh_record(id, tracker))
    } else {
        s.push(fresh_record(id, tracker))
    }
}

/// A record after one frame: its miss count starts over when the tracker
/// cleared the confidence threshold and grows by one when it did not.
pub open spec fn tallied<T>(r: TrackerRecord<T>, cleared: bool) -> TrackerRecord<T> {
    TrackerRecord {
        misses: if cleared {
            0
        } else {
            (r.misses + 1) as u32
        },
        ..r
    }
}

/// Every record tallied with its own outcome.
pub open spec fn tally<T>(s: Seq<TrackerRecord<T>>, cleared: Seq<bool>) -> Seq<TrackerRecord<T>> {
    Seq::new(s.len(), |i: int| tallied(s[i], cleared[i]))
}

/// A record survives while its miss count is below the desperation level.
pub open spec fn survives<T>(level: u32) -> spec_fn(TrackerRecord<T>) -> bool {
    |r: TrackerRecord<T>| r.misses < level
}

/// The records after a frame with the given outcomes: tallied, then pruned of
/// those that reached the desperation level, in their original order.
pub open spec fn settled<T>(s: Seq<TrackerRecord<T>>, cleared: Seq<bool>, level: u32) -> Seq<
    TrackerRecord<T>,
> {
    tally(s, cleared).filter(survives(level))
}

/// The live trackers of a supervisor, in insertion order.
pub struct TrackerRegistry<T> {
    records: Vec<TrackerRecord<T>>,
    desperation_level: u32,
}

impl<T> View for TrackerRegistry<T> {
    type V = Seq<TrackerRecord<T>>;

    closed spec fn view(&self) -> Seq<TrackerRecord<T>> {
        self.records@
    }
}

impl<T> TrackerRegistry<T> {
    /// Number of consecutive low-confidence frames after which a tracker is
    /// dropped.
    pub closed spec fn level(&self) -> u32 {
        self.desperation_level
    }

    /// Identifiers are unique, and every miss count is below the desperation
    /// level unless it is zero.
    pub open spec fn wf(&self) -> bool {
        &&& ids_distinct(self@)
        &&& forall|i: int|
            0 <= i < self@.len() ==> #[trigger] self@[i].misses == 0 || self@[i].misses < self.level()
    }

    /// An empty registry.
    pub fn new(desperation_level: u32) -> (r: TrackerRegistry<T>)
        ensures
            r.wf(),
            r@ == Seq::<TrackerRecord<T>>::empty(),
            r.level() == desperation_level,
    {
        TrackerRegistry { records: Vec::new(), desperation_level }
    }

    /// Number of live trackers.
    pub fn size(&self) -> (r: usize)
        ensures
            r == self@.len(),
    {
        self.records.len()
    }

    /// The desperation level the registry was made with.
    pub fn desperation_level(&self) -> (r: u32)
        ensures
            r == self.level(),
    {
        self.desperation_level
    }

    /// Position of the record that carries `id`.
    pub fn position(&self, id: u32) -> (r: Option<usize>)
        requires
            self.wf(),
        ensures
            r.is_none() <==> !has_id(self@, id),
            r.is_some() ==> r->Some_0 < self@.len() && self@[r->Some_0 as int].id == id
                && r->Some_0 == position_of(self@, id),
    {
        let mut i: usize = 0;
        while i < self.records.len()
            invariant
                i <= self@.len(),
                self@ == self.records@,
                ids_distinct(self@),
                forall|j: int| 0 <= j < i ==> self@[j].id != id,
            decreases self@.len() - i,
        {
            if self.records[i].id == id {
                proof {
                    let p = position_of(self@, id);
                    assert(0 <= p < self@.len() && self@[p].id == id);
                    if p > i {
                        assert(self@[i as int].id != self@[p].id);
                    }
                    assert(p == i);
                }
                return Some(i);
            }
            i += 1;
        }
        None
    }

    /// Identifier of the record at `index`.
    pub fn id(&self, index: usize) -> (r: u32)
        requires
            index < self@.len(),
        ensures
            r == self@[index as int].id,
    {
        self.records[index].id
    }

    /// Consecutive low-confidence frames of the record at `index`.
    pub fn misses(&self, index: usize) -> (r: u32)
        requires
            index < self@.len(),
        ensures
            r == self@[index as int].misses,
    {
        self.records[index].misses
    }

    /// The tracker at `index`.
    pub fn tracker(&self, index: usize) -> (r: &T)
        requires
            index < self@.len(),
        ensures
            *r == self@[index as int].tracker,
    {
        &self.records[index].tracker
    }

    /// The tracker at `index`, to be run on a frame; the identifier and the
    /// miss count stay as they are.
    pub fn tracker_mut(&mut self, index: usize) -> (r: &mut T)
        requires
            index < old(self)@.len(),
        ensures
            *r == old(self)@[index as int].tracker,
            final(self)@ == old(self)@.update(
                index as int,
                TrackerRecord { tracker: *final(r), ..old(self)@[index as int] },
            ),
            final(self).level() == old(self).level(),
    {
        &mut self.records[index].tracker
    }

    /// Installs `tracker` under `id` with a miss count of zero, replacing the
    /// record that carries `id` in place, or appending when there is none.
    pub fn add_or_replace(&mut self, id: u32, tracker: T)
        requires
            old(self).wf(),
        ensures
            final(self).wf(),
            final(self)@ == with_target(old(self)@, id, tracker),
            final(self).level() == old(self).level(),
    {
        let record = TrackerRecord { id, misses: 0, tracker };
        match self.position(id) {
            Some(i) => {
                self.records.set(i, record);
            },
            None => {
                self.records.push(record);
            },
        }
    }

    /// Records one frame's outcome for every tracker, in order: `cleared[i]`
    /// tells whether tracker `i` cleared the confidence threshold. Miss counts
    /// are updated, and trackers whose count reached the desperation level
    /// are dropped; the others keep their order.
    pub fn settle(&mut self, cleared: &Vec<bool>)
        requires
            old(self).wf(),
            cleared@.len() == old(self)@.len(),
        ensures
            final(self).wf(),
            final(self)@ == settled(old(self)@, cleared@, old(self).level()),
            final(self).level() == old(self).level(),
    {
        let ghost orig = self@;
        let ghost tallies = tally(orig, cleared@);
        let level = self.desperation_level;
        let mut pending: Vec<TrackerRecord<T>> = Vec::new();
        std::mem::swap(&mut self.records, &mut pending);
        let mut i: usize = 0;
        let n = pending.len();
        while i < n
            invariant
                n == orig.len() == cleared@.len(),
                i <= n,
                level == self.desperation_level,
                ids_distinct(orig),
                forall|j: int| 0 <= j < n ==> #[trigger] orig[j].misses == 0 || orig[j].misses < level,
                tallies == tally(orig, cleared@),
                pending@ == orig.subrange(i as int, n as int),
                self.records@ == tallies.take(i as int).filter(survives(level)),
                forall|k: int|
                    0 <= k < self.records@.len() ==> exists|j: int|
                        0 <= j < i && #[trigger] self.records@[k].id == orig[j].id,
                ids_distinct(self.records@),
                forall|k: int| 0 <= k < self.records@.len() ==> #[trigger] self.records@[k].misses < level,
            decreases n - i,
        {
            let mut record = pending.remove(0);
            assert(record == orig[i as int]);
            if cleared[i] {
                record.misses = 0;
            } else {
                record.misses = record.misses + 1;
            }
            proof {
                assert(tallies.take(i as int + 1) =~= tallies.take(i as int).push(tallies[i as int]));
                tallies.take(i as int).lemma_filter_push(tallies[i as int], survives(level));
                assert(record == tallies[i as int]);
            }
            if record.misses < level {
                proof {
                    assert forall|k: int| 0 <= k < self.records@.len() implies self.records@[k].id
                        != record.id by {
                        let j = choose|j: int| 0 <= j < i && self.records@[k].id == orig[j].id;
                    }
                }
                self.records.push(record);
            }
            i += 1;
            proof {
                assert(pending@ =~= orig.subrange(i as int, n as int));
            }
        }
        proof {
            assert(tallies.take(n as int) =~= tallies);
        }
    }
}

/// Installing a tracker under an identifier that is already present replaces
/// it: a second `add_or_replace` with the same identifier leaves the number of
/// records and the set of identifiers as the first one left them.
pub proof fn lemma_add_or_replace_idempotent_on_ids<T>(
    s: Seq<TrackerRecord<T>>,
    id: u32,
    first: T,
    second: T,
)
    ensures
        with_target(with_target(s, id, first), id, second).len() == with_target(s, id, first).len(),
        id_set(with_target(with_target(s, id, first), id, second)) == id_set(
            with_target(s, id, first),
        ),
        with_target(s, id, first).len() == if has_id(s, id) {
            s.len()
        } else {
            s.len() + 1
        },
{
    let once = with_target(s, id, first);
    let twice = with_target(once, id, second);
    if has_id(s, id) {
        let p = position_of(s, id);
        assert(once[p].id == id);
    } else {
        assert(once[s.len() as int].id == id);
    }
    assert(has_id(once, id));
    let q = position_of(once, id);
    assert(twice[q].id == once[q].id);
    assert forall|x: u32| has_id(twice, x) <==> has_id(once, x) by {
        if has_id(twice, x) {
            let j = choose|j: int| 0 <= j < twice.len() && twice[j].id == x;
            assert(once[j].id == x);
        }
        if has_id(once, x) {
            let j = choose|j: int| 0 <= j < once.len() && once[j].id == x;
            assert(twice[j].id == x);
        }
    }
    assert(id_set(twice) =~= id_set(once));
}

/// What one frame does to the record at `i`: its miss count resets when it
/// cleared the threshold and grows by exactly one otherwise, and it is dropped
/// exactly when that count reaches the desperation level. A record that
/// stays is the tallied one, and no other record carries its identifier.
pub proof fn lemma_settle_fate<T>(s: Seq<TrackerRecord<T>>, cleared: Seq<bool>, level: u32, i: int)
    requires
        cleared.len() == s.len(),
        ids_distinct(s),
        0 <= i < s.len(),
        s[i].misses < u32::MAX,
    ensures
        tallied(s[i], cleared[i]).misses == if cleared[i] {
            0
        } else {
            s[i].misses + 1
        },
        has_id(settled(s, cleared, level), s[i].id) <==> tallied(s[i], cleared[i]).misses < level,
        forall|k: int|
            0 <= k < settled(s, cleared, level).len() && #[trigger] settled(s, cleared, level)[k].id
                == s[i].id ==> settled(s, cleared, level)[k] == tallied(s[i], cleared[i]),
{
    let t = tally(s, cleared);
    let out = settled(s, cleared, level);
    assert(t[i] == tallied(s[i], cleared[i]));
    if tallied(s[i], cleared[i]).misses < level {
        t.lemma_filter_contains(survives(level), i);
        let k = choose|k: int| 0 <= k < out.len() && out[k] == t[i];
        assert(out[k].id == s[i].id);
    }
    assert forall|k: int| 0 <= k < out.len() && #[trigger] out[k].id == s[i].id implies out[k]
        == t[i] && t[i].misses < level by {
        assert(out.contains(out[k]));
        t.lemma_filter_contains_rev(survives(level), out[k]);
        let j = choose|j: int| 0 <= j < t.len() && t[j] == out[k];
        assert(t[j].id == s[j].id);
        assert(j == i);
        t.lemma_filter_pred(survives(level), k);
    }
}

} // verus!
