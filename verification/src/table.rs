//! The transposition table: search results kept by the fingerprint of the
//! position they belong to.

use crate::chessboard::{pos_on_board, Chessboard};
use crate::zobrist::{fingerprint, ZobristTable};
use vstd::prelude::*;

verus! {

/// Used to determine the accuracy of the score.
#[derive(Clone, Copy, Debug, PartialEq, Eq, Structural)]
pub enum Flag {
    /// The score is exact, after having searched all possible moves.
    /// This corresponds to the principle variation (PV)
    Exact,
    /// We know the move is "too good". Beta cutoff was performed (Cut Nodes).
    /// The score returned is a lower bound for the actual score.
    Beta,
    /// No moves score exceeded alpha, also called "fail low" or "all" nodes.
    /// The score returned is an upper bound for the actual score.
    Alpha,
}

/// A move as the table keeps it: the number of the piece's kind and side,
/// and the squares it moves between.
#[derive(Clone, Copy, Debug)]
pub struct TTMove {
    pub piece_id: usize,
    pub start_pos: [u8; 2],
    pub end_pos: [u8; 2],
}

impl TTMove {
    /// The piece number is one of the twelve and both squares are on the
    /// board.
    pub open spec fn wf(&self) -> bool {
        self.piece_id < 12 && pos_on_board(self.start_pos) && pos_on_board(self.end_pos)
    }
}

/// Largest magnitude of a score: with it a score and its negation fit.
pub const SCORE_LIMIT: i32 = 2_000_000_000;

/// What a search found for one position.
#[derive(Clone, Copy, Debug)]
pub struct TTEntry {
    pub hash: u64,
    pub depth: u8,
    pub score: i32,
    pub flag: Flag,
    pub best_move: Option<TTMove>,
    pub age: u8,
}

impl TTEntry {
    /// The score can be negated and the move, if any, is one of the board.
    pub open spec fn wf(&self) -> bool {
        &&& -SCORE_LIMIT <= self.score <= SCORE_LIMIT
        &&& match self.best_move {
            Some(m) => m.wf(),
            None => true,
        }
    }

    /// The entry with which a search of `b` starts: all fields 0 and flag
    /// Exact, except the hash.
    pub open spec fn fresh(hash: u64) -> TTEntry {
        TTEntry { hash, depth: 0, score: 0, flag: Flag::Exact, best_move: None, age: 0 }
    }

    /// Creates a new TTEntry with all fields 0, and flag Exact, except the hash
    /// This should only be used if the fields are going to be populated immediately afterwards
    pub fn new(chessboard: &Chessboard, table: &ZobristTable) -> (r: TTEntry)
        requires
            chessboard@.squares.len() == 64,
            table.wf(),
        ensures
            r == TTEntry::fresh(fingerprint(table@, chessboard@)),
    {
        TTEntry {
            hash: chessboard.zobrist_hash(table),
            depth: 0,
            score: 0,
            flag: Flag::Exact,
            best_move: None,
            age: 0,
        }
    }
}

/// Number of entries that a bucket holds.
pub const BUCKET_SIZE: usize = 4;

/// The entries whose fingerprints fall on one index of the table.
#[derive(Clone, Copy, Debug)]
struct Bucket {
    entries: [Option<TTEntry>; 4],
}

impl Bucket {
    /// A bucket without entries.
    fn empty() -> (r: Bucket)
        ensures
            forall|i: int| 0 <= i < 4 ==> r.entries[i].is_none(),
    {
        Bucket { entries: [None, None, None, None] }
    }
}

/// The first slot from `from` on that holds an entry with the fingerprint
/// `hash`.
pub open spec fn find_hash(bucket: Seq<Option<TTEntry>>, hash: u64, from: int) -> Option<int>
    decreases bucket.len() - from,
{
    if from < 0 || from >= bucket.len() {
        None
    } else {
        match bucket[from] {
            Some(e) if e.hash == hash => Some(from),
            _ => find_hash(bucket, hash, from + 1),
        }
    }
}

/// The first empty slot from `from` on.
pub open spec fn find_empty(bucket: Seq<Option<TTEntry>>, from: int) -> Option<int>
    decreases bucket.len() - from,
{
    if from < 0 || from >= bucket.len() {
        None
    } else if bucket[from].is_none() {
        Some(from)
    } else {
        find_empty(bucket, from + 1)
    }
}

/// The last slot before `upto` that holds an entry of a depth below `depth`.
pub open spec fn find_shallower(bucket: Seq<Option<TTEntry>>, depth: u8, upto: int) -> Option<int>
    decreases upto,
{
    if upto <= 0 || upto > bucket.len() {
        None
    } else {
        match bucket[upto - 1] {
            Some(e) if e.depth < depth => Some(upto - 1),
            _ => find_shallower(bucket, depth, upto - 1),
        }
    }
}

/// The slot of `bucket` into which `entry` is stored: the one that holds its
/// fingerprint; else the first empty one; else the last one that holds an
/// entry of a lower depth; none where there is no such slot.
pub open spec fn slot_for(bucket: Seq<Option<TTEntry>>, entry: TTEntry) -> Option<int> {
    match find_hash(bucket, entry.hash, 0) {
        Some(i) => Some(i),
        None => match find_empty(bucket, 0) {
            Some(i) => Some(i),
            None => find_shallower(bucket, entry.depth, bucket.len() as int),
        },
    }
}

/// The mathematical model of a table: its buckets, each a sequence of slots.
pub struct TableState {
    pub buckets: Seq<Seq<Option<TTEntry>>>,
}

impl TableState {
    /// The index of the bucket on which `hash` falls.
    pub open spec fn index_of(self, hash: u64) -> int {
        hash as int % self.buckets.len() as int
    }

    /// The bucket on which `hash` falls.
    pub open spec fn bucket_of(self, hash: u64) -> Seq<Option<TTEntry>> {
        self.buckets[self.index_of(hash)]
    }

    /// A bucket's entries fall on its index, fill its first slots and have
    /// fingerprints that differ.
    pub open spec fn bucket_wf(self, i: int) -> bool {
        let bucket = self.buckets[i];
        &&& bucket.len() == BUCKET_SIZE
        &&& forall|j: int|
            0 <= j < BUCKET_SIZE ==> match #[trigger] bucket[j] {
                Some(e) => self.index_of(e.hash) == i,
                None => true,
            }
        &&& forall|j: int, k: int|
            0 <= j < k < BUCKET_SIZE && (#[trigger] bucket[k]).is_some() ==> (#[trigger] bucket[j]).is_some()
                && bucket[j].unwrap().hash != bucket[k].unwrap().hash
    }

    /// There is a bucket, and every bucket is well-formed.
    pub open spec fn wf(self) -> bool {
        &&& self.buckets.len() > 0
        &&& forall|i: int| 0 <= i < self.buckets.len() ==> #[trigger] self.bucket_wf(i)
    }

    /// Every entry can be negated and holds a move of the board, if any.
    pub open spec fn entries_wf(self) -> bool {
        forall|i: int, j: int|
            0 <= i < self.buckets.len() && 0 <= j < self.buckets[i].len() ==> match (
            #[trigger] self.buckets[i][j]) {
                Some(e) => e.wf(),
                None => true,
            }
    }

    /// No bucket holds an entry.
    pub open spec fn is_empty(self) -> bool {
        forall|i: int, j: int|
            0 <= i < self.buckets.len() && 0 <= j < self.buckets[i].len() ==> (
            #[trigger] self.buckets[i][j]).is_none()
    }

    /// The entry kept for `hash`: the first of its bucket with that
    /// fingerprint.
    pub open spec fn lookup(self, hash: u64) -> Option<TTEntry> {
        match find_hash(self.bucket_of(hash), hash, 0) {
            Some(i) => self.bucket_of(hash)[i],
            None => None,
        }
    }

    /// Whether `entry` finds a slot.
    pub open spec fn admits(self, entry: TTEntry) -> bool {
        slot_for(self.bucket_of(entry.hash), entry).is_some()
    }

    /// The table after `entry` was stored.
    pub open spec fn store(self, entry: TTEntry) -> TableState {
        match slot_for(self.bucket_of(entry.hash), entry) {
            Some(i) => TableState {
                buckets: self.buckets.update(
                    self.index_of(entry.hash),
                    self.bucket_of(entry.hash).update(i, Some(entry)),
                ),
            },
            None => self,
        }
    }
}

/// A table of search results, in buckets of four entries. A position's
/// fingerprint picks its bucket.
#[derive(Debug)]
pub struct TranspositionTable {
    buckets: Vec<Bucket>,
}

impl View for TranspositionTable {
    type V = TableState;

    closed spec fn view(&self) -> TableState {
        TableState { buckets: Seq::new(self.buckets@.len(), |i: int| self.buckets@[i].entries@) }
    }
}

impl TranspositionTable {
    /// A table of `capacity` empty buckets.
    pub fn new(capacity: usize) -> (r: TranspositionTable)
        requires
            capacity > 0,
        ensures
            r@.buckets.len() == capacity,
            r@.is_empty(),
            r@.wf(),
            r@.entries_wf(),
    {
        let mut buckets: Vec<Bucket> = Vec::new();
        let mut i: usize = 0;
        while i < capacity
            invariant
                i <= capacity,
                buckets@.len() == i,
                forall|k: int, j: int|
                    0 <= k < i && 0 <= j < 4 ==> (#[trigger] buckets@[k].entries@[j]).is_none(),
            decreases capacity - i,
        {
            buckets.push(Bucket::empty());
            i += 1;
        }
        let table = TranspositionTable { buckets };
        assert(table@.wf()) by {
            assert forall|k: int| 0 <= k < table@.buckets.len() implies #[trigger] table@.bucket_wf(
                k,
            ) by {
                assert(table@.buckets[k] == buckets@[k].entries@);
            }
        }
        table
    }

    /// The entry kept for the fingerprint `hash`, if there is one.
    pub fn get_for_hash(&self, hash: u64) -> (r: Option<&TTEntry>)
        requires
            self@.wf(),
        ensures
            match r {
                Some(e) => self@.lookup(hash) == Some(*e),
                None => self@.lookup(hash).is_none(),
            },
    {
        let bucket = &self.buckets[(hash % self.buckets.len() as u64) as usize];
        let ghost slots = self@.bucket_of(hash);
        assert(slots == bucket.entries@);
        let mut i: usize = 0;
        while i < 4
            invariant
                i <= 4,
                slots == bucket.entries@,
                slots == self@.bucket_of(hash),
                slots.len() == 4,
                find_hash(slots, hash, 0) == find_hash(slots, hash, i as int),
            decreases 4 - i,
        {
            if let Some(entry) = bucket.entries[i].as_ref() {
                assert(slots[i as int] == Some(*entry));
                if entry.hash == hash {
                    return Some(entry);
                }
            }
            i += 1;
        }
        None
    }

    /// The entry kept for the position on `chessboard`, if there is one.
    pub fn get(&self, chessboard: &Chessboard, table: &ZobristTable) -> (r: Option<&TTEntry>)
        requires
            self@.wf(),
            chessboard@.squares.len() == 64,
            table.wf(),
        ensures
            match r {
                Some(e) => self@.lookup(fingerprint(table@, chessboard@)) == Some(*e),
                None => self@.lookup(fingerprint(table@, chessboard@)).is_none(),
            },
    {
        self.get_for_hash(chessboard.zobrist_hash(table))
    }
}

/// What `find_hash` finds holds the fingerprint, and no slot between `from`
/// and it does; where it finds nothing, no slot from `from` on does.
pub proof fn find_hash_finds(bucket: Seq<Option<TTEntry>>, hash: u64, from: int)
    requires
        0 <= from,
    ensures
        match find_hash(bucket, hash, from) {
            Some(i) => from <= i < bucket.len() && bucket[i].is_some() && bucket[i].unwrap().hash
                == hash,
            None => true,
        },
        forall|j: int|
            from <= j < bucket.len() && (match find_hash(bucket, hash, from) {
                Some(i) => j < i,
                None => true,
            }) ==> !((#[trigger] bucket[j]).is_some() && bucket[j].unwrap().hash == hash),
    decreases bucket.len() - from,
{
    if from < bucket.len() {
        find_hash_finds(bucket, hash, from + 1);
    }
}

/// What `find_empty` finds is empty, and every slot between `from` and it is
/// taken; where it finds nothing, every slot from `from` on is taken.
pub proof fn find_empty_finds(bucket: Seq<Option<TTEntry>>, from: int)
    requires
        0 <= from,
    ensures
        match find_empty(bucket, from) {
            Some(i) => from <= i < bucket.len() && bucket[i].is_none(),
            None => true,
        },
        forall|j: int|
            from <= j < bucket.len() && (match find_empty(bucket, from) {
                Some(i) => j < i,
                None => true,
            }) ==> (#[trigger] bucket[j]).is_some(),
    decreases bucket.len() - from,
{
    if from < bucket.len() {
        find_empty_finds(bucket, from + 1);
    }
}

/// What `find_shallower` finds holds an entry of a lower depth, and no slot
/// between it and `upto` does; where it finds nothing, no slot before `upto`
/// does.
pub proof fn find_shallower_finds(bucket: Seq<Option<TTEntry>>, depth: u8, upto: int)
    requires
        upto <= bucket.len(),
    ensures
        match find_shallower(bucket, depth, upto) {
            Some(i) => 0 <= i < upto && bucket[i].is_some() && bucket[i].unwrap().depth < depth,
            None => true,
        },
        forall|j: int|
            0 <= j < upto && (match find_shallower(bucket, depth, upto) {
                Some(i) => i < j,
                None => true,
            }) ==> !((#[trigger] bucket[j]).is_some() && bucket[j].unwrap().depth < depth),
    decreases upto,
{
    if upto > 0 {
        find_shallower_finds(bucket, depth, upto - 1);
    }
}

impl Bucket {
    /// The slot that holds the fingerprint `hash`.
    fn slot_with_hash(&self, hash: u64) -> (r: Option<usize>)
        ensures
            match r {
                Some(i) => find_hash(self.entries@, hash, 0) == Some(i as int),
                None => find_hash(self.entries@, hash, 0).is_none(),
            },
    {
        let mut i: usize = 0;
        while i < 4
            invariant
                i <= 4,
                find_hash(self.entries@, hash, 0) == find_hash(self.entries@, hash, i as int),
            decreases 4 - i,
        {
            if let Some(stored_entry) = self.entries[i].as_ref() {
                if stored_entry.hash == hash {
                    return Some(i);
                }
            }
            i += 1;
        }
        None
    }

    /// The slot that an entry of `depth` with a fingerprint that the bucket
    /// does not hold may take: the first empty one, else the last one with
    /// an entry of a lower depth.
    fn slot_to_take(&self, depth: u8) -> (r: Option<usize>)
        ensures
            match r {
                Some(i) => match find_empty(self.entries@, 0) {
                    Some(e) => e == i,
                    None => find_shallower(self.entries@, depth, 4) == Some(i as int),
                },
                None => find_empty(self.entries@, 0).is_none() && find_shallower(
                    self.entries@,
                    depth,
                    4,
                ).is_none(),
            },
    {
        let mut location_to_store: Option<usize> = None;
        let mut i: usize = 0;
        while i < 4
            invariant
                i <= 4,
                find_empty(self.entries@, 0) == find_empty(self.entries@, i as int),
                match location_to_store {
                    Some(l) => find_shallower(self.entries@, depth, i as int) == Some(l as int),
                    None => find_shallower(self.entries@, depth, i as int).is_none(),
                },
            decreases 4 - i,
        {
            match self.entries[i].as_ref() {
                None => {
                    return Some(i);
                },
                Some(stored_entry) => {
                    // we haven't encountered a "None" yet.
                    // The new entry is more valuable, so we are allowed to overwrite it in the TT
                    // There is a potential situation where there are multiple old entries.
                    // This replaces the LAST one.
                    if depth > stored_entry.depth {
                        location_to_store = Some(i);
                    }
                },
            }
            i += 1;
        }
        location_to_store
    }
}

impl TranspositionTable {
    /// Stores `entry`: over the entry with its fingerprint, if the bucket
    /// holds one; else in the first empty slot; else over the last entry of
    /// a lower depth. Where the bucket is full of other entries that are as
    /// deep or deeper, the table stays as it is.
    pub fn store(&mut self, entry: TTEntry)
        requires
            old(self)@.wf(),
        ensures
            final(self)@ == old(self)@.store(entry),
            final(self)@.wf(),
            old(self)@.entries_wf() && entry.wf() ==> final(self)@.entries_wf(),
    {
        let idx = (entry.hash % self.buckets.len() as u64) as usize;
        let mut bucket = self.buckets[idx];
        assert(bucket.entries@ == self@.bucket_of(entry.hash));
        let location_to_store = match bucket.slot_with_hash(entry.hash) {
            Some(i) => Some(i),
            None => bucket.slot_to_take(entry.depth),
        };
        proof {
            old(self)@.store_keeps_wf(entry);
            let slots = bucket.entries@;
            find_hash_finds(slots, entry.hash, 0);
            find_empty_finds(slots, 0);
            find_shallower_finds(slots, entry.depth, 4);
        }
        if let Some(i) = location_to_store {
            bucket.entries[i] = Some(entry);
            self.buckets[idx] = bucket;
            assert(self@.buckets =~= old(self)@.store(entry).buckets);
        }
    }
}

impl TableState {
    /// Storing an entry leaves a well-formed table well-formed, and a table
    /// of entries that can be negated one of such entries.
    pub proof fn store_keeps_wf(self, entry: TTEntry)
        requires
            self.wf(),
        ensures
            self.store(entry).wf(),
            self.store(entry).buckets.len() == self.buckets.len(),
            self.entries_wf() && entry.wf() ==> self.store(entry).entries_wf(),
    {
        let idx = self.index_of(entry.hash);
        let bucket = self.bucket_of(entry.hash);
        let after = self.store(entry);
        assert(self.bucket_wf(idx));
        find_hash_finds(bucket, entry.hash, 0);
        find_empty_finds(bucket, 0);
        find_shallower_finds(bucket, entry.depth, 4);
        match slot_for(bucket, entry) {
            Some(s) => {
                let fresh = bucket.update(s, Some(entry));
                assert(after.buckets[idx] == fresh);
                assert forall|i: int| 0 <= i < after.buckets.len() implies #[trigger] after.bucket_wf(
                    i,
                ) by {
                    assert(self.bucket_wf(i));
                    if i == idx {
                        assert forall|j: int, k: int|
                            0 <= j < k < BUCKET_SIZE && (#[trigger] fresh[k]).is_some() implies (
                        #[trigger] fresh[j]).is_some() && fresh[j].unwrap().hash
                            != fresh[k].unwrap().hash by {
                            let _ = bucket[j];
                            let _ = bucket[k];
                        }
                    } else {
                        assert(after.buckets[i] == self.buckets[i]);
                    }
                }
                if self.entries_wf() && entry.wf() {
                    assert forall|i: int, j: int|
                        0 <= i < after.buckets.len() && 0 <= j < after.buckets[i].len() implies match (
                    #[trigger] after.buckets[i][j]) {
                        Some(e) => e.wf(),
                        None => true,
                    } by {
                        let _ = self.buckets[i][j];
                    }
                }
            },
            None => {},
        }
    }
}

impl TableState {
    /// The entry with another fingerprint that leaves the table when `entry`
    /// is stored.
    pub open spec fn evicted(self, entry: TTEntry) -> Option<TTEntry> {
        match slot_for(self.bucket_of(entry.hash), entry) {
            Some(i) => match self.bucket_of(entry.hash)[i] {
                Some(x) => if x.hash != entry.hash {
                    Some(x)
                } else {
                    None
                },
                None => None,
            },
            None => None,
        }
    }

    /// An entry finds a slot exactly where the table keeps its fingerprint
    /// already, or its bucket has an empty slot or holds an entry of a lower
    /// depth.
    pub proof fn admits_exactly(self, entry: TTEntry)
        requires
            self.wf(),
        ensures
            self.admits(entry) <==> (self.lookup(entry.hash).is_some() || exists|j: int|
                0 <= j < BUCKET_SIZE && match #[trigger] self.bucket_of(entry.hash)[j] {
                    Some(x) => x.depth < entry.depth,
                    None => true,
                }),
    {
        let bucket = self.bucket_of(entry.hash);
        assert(self.bucket_wf(self.index_of(entry.hash)));
        find_hash_finds(bucket, entry.hash, 0);
        find_empty_finds(bucket, 0);
        find_shallower_finds(bucket, entry.depth, 4);
        if self.admits(entry) && self.lookup(entry.hash).is_none() {
            let s = slot_for(bucket, entry).unwrap();
            let _ = bucket[s];
        }
    }

    /// After an entry is stored, a lookup of its fingerprint gives the entry
    /// itself, with its score, depth and flag, where it found a slot, and
    /// nothing where it did not.
    pub proof fn store_then_lookup(self, entry: TTEntry)
        requires
            self.wf(),
        ensures
            self.store(entry).lookup(entry.hash) == (if self.admits(entry) {
                Some(entry)
            } else {
                None
            }),
    {
        let idx = self.index_of(entry.hash);
        let bucket = self.bucket_of(entry.hash);
        assert(self.bucket_wf(idx));
        find_hash_finds(bucket, entry.hash, 0);
        find_empty_finds(bucket, 0);
        find_shallower_finds(bucket, entry.depth, 4);
        match slot_for(bucket, entry) {
            Some(s) => {
                let fresh = bucket.update(s, Some(entry));
                assert(self.store(entry).bucket_of(entry.hash) == fresh);
                find_hash_finds(fresh, entry.hash, 0);
                let found = find_hash(fresh, entry.hash, 0);
                let _ = fresh[s];
                assert(found.is_some());
                let f = found.unwrap();
                if f != s {
                    let _ = bucket[f];
                    let _ = bucket[s];
                }
            },
            None => {},
        }
    }

    /// Storing an entry changes what a lookup of another fingerprint gives
    /// only for the entry that left the table.
    pub proof fn store_keeps_others(self, entry: TTEntry, hash: u64)
        requires
            self.wf(),
            hash != entry.hash,
        ensures
            self.store(entry).lookup(hash) == (match self.evicted(entry) {
                Some(x) => if x.hash == hash {
                    None
                } else {
                    self.lookup(hash)
                },
                None => self.lookup(hash),
            }),
    {
        let idx = self.index_of(entry.hash);
        let bucket = self.bucket_of(entry.hash);
        assert(self.bucket_wf(idx));
        assert(self.bucket_wf(self.index_of(hash)));
        find_hash_finds(bucket, entry.hash, 0);
        find_empty_finds(bucket, 0);
        find_shallower_finds(bucket, entry.depth, 4);
        match slot_for(bucket, entry) {
            Some(s) => {
                let fresh = bucket.update(s, Some(entry));
                if self.index_of(hash) == idx {
                    assert(self.store(entry).bucket_of(hash) == fresh);
                    find_hash_finds(fresh, hash, 0);
                    find_hash_finds(bucket, hash, 0);
                    let before = find_hash(bucket, hash, 0);
                    let after = find_hash(fresh, hash, 0);
                    let _ = fresh[s];
                    let _ = bucket[s];
                    if before.is_some() {
                        let _ = fresh[before.unwrap()];
                        let _ = bucket[before.unwrap()];
                    }
                    if after.is_some() {
                        let _ = bucket[after.unwrap()];
                        let _ = fresh[after.unwrap()];
                    }
                } else {
                    assert(self.store(entry).bucket_of(hash) == self.bucket_of(hash));
                }
            },
            None => {},
        }
    }

    /// An entry leaves the table only from a full bucket and only for a
    /// deeper one: it is the last of its bucket that is shallower than the
    /// entry stored. An entry that is as deep as the one stored, or deeper,
    /// stays.
    pub proof fn store_prefers_depth(self, entry: TTEntry)
        requires
            self.wf(),
        ensures
            match self.evicted(entry) {
                Some(x) => {
                    &&& x.depth < entry.depth
                    &&& forall|j: int|
                        0 <= j < BUCKET_SIZE ==> (#[trigger] self.bucket_of(entry.hash)[j]).is_some()
                    &&& forall|j: int|
                        #![trigger self.bucket_of(entry.hash)[j]]
                        0 <= j < BUCKET_SIZE && self.bucket_of(entry.hash)[j].unwrap().depth
                            < entry.depth ==> j <= slot_for(
                            self.bucket_of(entry.hash),
                            entry,
                        ).unwrap()
                },
                None => true,
            },
            forall|hash: u64|
                hash != entry.hash && (match #[trigger] self.lookup(hash) {
                    Some(x) => x.depth >= entry.depth,
                    None => false,
                }) ==> self.store(entry).lookup(hash) == self.lookup(hash),
    {
        let bucket = self.bucket_of(entry.hash);
        assert(self.bucket_wf(self.index_of(entry.hash)));
        find_hash_finds(bucket, entry.hash, 0);
        find_empty_finds(bucket, 0);
        find_shallower_finds(bucket, entry.depth, 4);
        assert forall|hash: u64|
            hash != entry.hash && (match #[trigger] self.lookup(hash) {
                Some(x) => x.depth >= entry.depth,
                None => false,
            }) implies self.store(entry).lookup(hash) == self.lookup(hash) by {
            self.store_keeps_others(entry, hash);
            find_hash_finds(self.bucket_of(hash), hash, 0);
        }
    }
}

} // verus!
