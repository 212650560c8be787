//! The record store (`World`) and the data types its records are made of.

use vstd::prelude::*;
use std::collections::HashMap;
use smallvec::SmallVec;

verus! {

broadcast use vstd::std_specs::hash::group_hash_axioms;

/// The id of one log record: assigned from 0, strictly increasing, never reused.
pub type Log = u32;

/// The store's insertion-order id index, backed by a
/// `smallvec::SmallVec<[Log; 16]>`. The verifier sees nothing inside it:
/// `sv_contents` names the ids it holds, and the trusted wrappers below state
/// how each `SmallVec` method this crate calls changes them.
#[verifier::external_body]
pub struct IdIndex {
    inner: SmallVec<[Log; 16]>,
}

/// The ids held by an `IdIndex`, oldest first.
pub uninterp spec fn sv_contents(v: IdIndex) -> Seq<Log>;

impl IdIndex {
    /// Relies on smallvec::SmallVec::new: a freshly created vector holds nothing.
    #[verifier::external_body]
    fn new() -> (v: IdIndex)
        ensures
            sv_contents(v) == Seq::<Log>::empty(),
    {
        IdIndex { inner: SmallVec::new() }
    }

    /// Relies on smallvec::SmallVec::push: appends one item at the back.
    #[verifier::external_body]
    fn push(&mut self, x: Log)
        ensures
            sv_contents(*final(self)) == sv_contents(*old(self)).push(x),
    {
        self.inner.push(x)
    }

    /// Relies on smallvec::SmallVec::len: how many items the vector holds.
    #[verifier::external_body]
    fn len(&self) -> (n: usize)
        ensures
            n == sv_contents(*self).len(),
    {
        self.inner.len()
    }

    /// Relies on smallvec::SmallVec::as_slice: the items in order; indexing
    /// the slice at `i` yields the item at position `i`.
    #[verifier::external_body]
    fn get(&self, i: usize) -> (x: Log)
        requires
            i < sv_contents(*self).len(),
        ensures
            x == sv_contents(*self)[i as int],
    {
        self.inner.as_slice()[i]
    }
}

/// A countdown used by callers that schedule periodic work.
pub struct Timer {
    pub duration: u64,
    pub elapsed: u64,
}

/// External configuration for persistence: consumed read-only by this crate.
pub struct Config {
    /// Base path/prefix for the per-day log files.
    pub log_file_path: String,
    /// Byte threshold intended to trigger size-based rollover, in bytes.
    pub max_log_size: u64,
    /// How many of the most recent daily files to retain.
    pub rotation_count: usize,
}

/// A record's creation time, formatted `YYYY-MM-DD HH:MM:SS` in local time.
pub struct Timestamp(pub String);

/// A record's severity.
pub struct Level(pub LogLevel);

/// A record's text, already trimmed of line terminators.
pub struct Message(pub String);

/// The closed set of record severities.
#[derive(Debug, PartialEq, Eq, Structural, Hash, Clone, Copy)]
pub enum LogLevel {
    Info,
    Warning,
    Error,
    Critical,
}

/// World - everything in the log: an insertion-ordered id index plus total
/// maps from id to timestamp, level and message.
pub struct World {
    pub(crate) entities: IdIndex,
    pub(crate) timestamps: HashMap<Log, Timestamp>,
    pub(crate) levels: HashMap<Log, Level>,
    pub(crate) messages: HashMap<Log, Message>,
    pub(crate) next_log_id: Log,
}

impl World {
    /// The ids in insertion order.
    pub open(crate) spec fn ids(self) -> Seq<Log> {
        sv_contents(self.entities)
    }

    /// The id the next append will receive (also: how many records exist).
    pub open(crate) spec fn next_id(self) -> Log {
        self.next_log_id
    }

    /// The map from id to stored timestamp.
    pub open(crate) spec fn timestamps_map(self) -> Map<Log, Timestamp> {
        self.timestamps@
    }

    /// The map from id to stored level.
    pub open(crate) spec fn levels_map(self) -> Map<Log, Level> {
        self.levels@
    }

    /// The map from id to stored message.
    pub open(crate) spec fn messages_map(self) -> Map<Log, Message> {
        self.messages@
    }

    /// The stored timestamp of record `id`.
    pub open(crate) spec fn timestamp_at(self, id: Log) -> Seq<char> {
        self.timestamps@[id].0@
    }

    /// The stored level of record `id`.
    pub open(crate) spec fn level_at(self, id: Log) -> LogLevel {
        self.levels@[id].0
    }

    /// The stored message of record `id`.
    pub open(crate) spec fn message_at(self, id: Log) -> Seq<char> {
        self.messages@[id].0@
    }

    /// Well-formedness: ids are exactly 0, 1, ..., next_log_id - 1 in order,
    /// and each of the three maps holds exactly those ids as keys.
    pub open(crate) spec fn wf(self) -> bool {
        &&& self.ids().len() == self.next_log_id
        &&& (forall|i: int| 0 <= i < self.ids().len() ==> self.ids()[i] == i)
        &&& (forall|id: Log| self.timestamps@.contains_key(id) <==> id < self.next_log_id)
        &&& (forall|id: Log| self.levels@.contains_key(id) <==> id < self.next_log_id)
        &&& (forall|id: Log| self.messages@.contains_key(id) <==> id < self.next_log_id)
    }

    /// An empty store: no records, ids start at 0.
    pub fn new() -> (w: World)
        ensures
            w.wf(),
            w.ids() == Seq::<Log>::empty(),
            w.next_id() == 0,
    {
        World {
            entities: IdIndex::new(),
            timestamps: HashMap::new(),
            levels: HashMap::new(),
            messages: HashMap::new(),
            next_log_id: 0,
        }
    }

    /// Appends one record: assigns the next id, inserts the triple into all
    /// three maps and the order index, and returns the id.
    pub fn create_log(&mut self, timestamp: Timestamp, level: Level, message: Message) -> (id: Log)
        requires
            old(self).wf(),
            old(self).next_id() < Log::MAX,
        ensures
            final(self).wf(),
            id == old(self).next_id(),
            id == old(self).ids().len(),
            final(self).next_id() == id + 1,
            final(self).ids() == old(self).ids().push(id),
            final(self).timestamps_map() == old(self).timestamps_map().insert(id, timestamp),
            final(self).levels_map() == old(self).levels_map().insert(id, level),
            final(self).messages_map() == old(self).messages_map().insert(id, message),
    {
        let log_id = self.next_log_id;
        self.next_log_id += 1;
        self.entities.push(log_id);
        self.timestamps.insert(log_id, timestamp);
        self.levels.insert(log_id, level);
        self.messages.insert(log_id, message);
        log_id
    }

    /// The insertion-ordered id list at the moment of the call.
    pub fn snapshot_ids(&self) -> (v: Vec<Log>)
        ensures
            v@ == self.ids(),
    {
        let n = self.entities.len();
        let mut v: Vec<Log> = Vec::new();
        let mut i: usize = 0;
        while i < n
            invariant
                n == self.ids().len(),
                i <= n,
                v@ == self.ids().subrange(0, i as int),
            decreases n - i,
        {
            v.push(self.entities.get(i));
            assert(v@ == self.ids().subrange(0, i + 1 as int));
            i += 1;
        }
        assert(self.ids().subrange(0, n as int) == self.ids());
        v
    }

    /// The id the next append will assign.
    pub fn peek_next_id(&self) -> (n: Log)
        ensures
            n == self.next_id(),
    {
        self.next_log_id
    }

    /// The triple stored for `id`, for any id a prior append produced.
    pub fn get(&self, id: Log) -> (r: (&Timestamp, &Level, &Message))
        requires
            self.wf(),
            id < self.next_id(),
        ensures
            r.0.0@ == self.timestamp_at(id),
            r.1.0 == self.level_at(id),
            r.2.0@ == self.message_at(id),
    {
        let t = self.timestamps.get(&id).unwrap();
        let l = self.levels.get(&id).unwrap();
        let m = self.messages.get(&id).unwrap();
        (t, l, m)
    }
}

/// Law: the ids a store holds are pairwise distinct and, in insertion order,
/// strictly increasing from 0 — whatever sequence of appends built the store.
pub proof fn lemma_ids_monotonic_unique(w: World)
    requires
        w.wf(),
    ensures
        forall|i: int, j: int| 0 <= i < j < w.ids().len() ==> w.ids()[i] < w.ids()[j],
        forall|i: int, j: int|
            0 <= i < w.ids().len() && 0 <= j < w.ids().len() && i != j ==> w.ids()[i] != w.ids()[j],
        w.ids().len() > 0 ==> w.ids()[0] == 0,
{
}

/// Law: after N successful appends the store holds exactly N ids, and every
/// id in the snapshot has an entry in each of the three maps (so `get`
/// resolves it), and no other id does.
pub proof fn lemma_store_completeness(w: World)
    requires
        w.wf(),
    ensures
        w.ids().len() == w.next_id(),
        forall|id: Log|
            w.ids().contains(id) <==> (w.timestamps_map().contains_key(id)
                && w.levels_map().contains_key(id) && w.messages_map().contains_key(id)),
{
    assert forall|id: Log| w.ids().contains(id) implies id < w.next_log_id by {
        let i = choose|i: int| 0 <= i < w.ids().len() && w.ids()[i] == id;
        assert(w.ids()[i] == i);
    }
    assert forall|id: Log| id < w.next_log_id implies w.ids().contains(id) by {
        assert(w.ids()[id as int] == id);
    }
}

} // verus!
