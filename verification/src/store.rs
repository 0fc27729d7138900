//! The store the queue keeps its state in: one ordered list of pending ids,
//! one set of ids in processing, and one map from id to job record, held in
//! memory.

use std::collections::VecDeque;
use vstd::hash_map::StringHashMap;
use vstd::hash_set::StringHashSet;
use vstd::prelude::*;

use crate::models::{job_of, text_of, EmailJob, JobView};
use crate::state::{QueueState, Write};

verus! {

/// The name of the pending list in a durable store.
pub const QUEUE_KEY: &'static str = "mailer:queue";

/// The name of the processing set in a durable store.
pub const PROCESSING_KEY: &'static str = "mailer:processing";

/// The name of the map of job records in a durable store.
pub const JOBS_KEY: &'static str = "mailer:jobs";

/// The characters of each string of a sequence.
pub open spec fn texts(s: Seq<String>) -> Seq<Seq<char>> {
    Seq::new(s.len(), |i: int| s[i]@)
}

/// The value of each job of a sequence.
pub open spec fn rows(s: Seq<EmailJob>) -> Seq<JobView> {
    Seq::new(s.len(), |i: int| s[i]@)
}

/// The value of each record of a map.
pub open spec fn row_map(m: Map<Seq<char>, EmailJob>) -> Map<Seq<char>, JobView> {
    Map::new(|k: Seq<char>| m.contains_key(k), |k: Seq<char>| m[k]@)
}

/// Whether `listing` holds every record of `records` exactly once.
pub open spec fn lists(listing: Seq<JobView>, records: Map<Seq<char>, JobView>) -> bool {
    &&& forall|i: int, j: int|
        0 <= i < j < listing.len() ==> listing[i].id != listing[j].id
    &&& forall|i: int|
        0 <= i < listing.len() ==> records.contains_key(#[trigger] listing[i].id)
            && records[listing[i].id] == listing[i]
    &&& forall|k: Seq<char>| #[trigger]
        records.contains_key(k) ==> exists|i: int|
            0 <= i < listing.len() && #[trigger] listing[i].id == k
}

/// One write to the store, as the queue's plans hold it.
pub enum StoreWrite {
    /// Store a job record under the job's id, replacing any earlier one.
    PutRecord(EmailJob),
    /// Append an id to the tail of the pending list.
    PushPending(String),
    /// Add an id to the processing set.
    AddProcessing(String),
    /// Remove an id from the processing set.
    RemoveProcessing(String),
}

impl View for StoreWrite {
    type V = Write;

    open spec fn view(&self) -> Write {
        match self {
            StoreWrite::PutRecord(job) => Write::PutRecord(job@),
            StoreWrite::PushPending(id) => Write::PushPending(id@),
            StoreWrite::AddProcessing(id) => Write::AddProcessing(id@),
            StoreWrite::RemoveProcessing(id) => Write::RemoveProcessing(id@),
        }
    }
}

/// The value of each write of a sequence.
pub open spec fn writes(s: Seq<StoreWrite>) -> Seq<Write> {
    Seq::new(s.len(), |i: int| s[i]@)
}

/// The job records by id. Beside the map it keeps the list of keys, which
/// is what lets every record be visited.
struct RecordTable {
    by_id: StringHashMap<EmailJob>,
    /// The key of every record, each once, in the order of first storage.
    ids: Vec<String>,
}

impl View for RecordTable {
    type V = Map<Seq<char>, JobView>;

    closed spec fn view(&self) -> Map<Seq<char>, JobView> {
        row_map(self.by_id@)
    }
}

impl RecordTable {
    #[verifier::type_invariant]
    spec fn inv(self) -> bool {
        &&& texts(self.ids@).no_duplicates()
        &&& forall|i: int|
            0 <= i < self.ids@.len() ==> self.by_id@.contains_key(#[trigger] texts(self.ids@)[i])
        &&& forall|k: Seq<char>| #[trigger]
            self.by_id@.contains_key(k) ==> texts(self.ids@).contains(k)
                && self.by_id@[k]@.id == k
    }

    fn new() -> (t: RecordTable)
        ensures
            t@ == Map::<Seq<char>, JobView>::empty(),
    {
        RecordTable { by_id: StringHashMap::new(), ids: Vec::new() }
    }

    fn get(&self, id: &str) -> (job: Option<EmailJob>)
        ensures
            match job {
                Some(j) => self@.contains_key(id@) && j@ == self@[id@] && j@.id == id@,
                None => !self@.contains_key(id@),
            },
    {
        proof {
            use_type_invariant(self);
        }
        match self.by_id.get(id) {
            Some(job) => Some(job.clone()),
            None => None,
        }
    }

    fn put(&mut self, job: EmailJob)
        ensures
            final(self)@ == old(self)@.insert(job@.id, job@),
    {
        proof {
            use_type_invariant(&*self);
        }
        let mut taken = RecordTable::new();
        std::mem::swap(self, &mut taken);
        let RecordTable { mut by_id, mut ids } = taken;
        let ghost before = texts(ids@);
        if !by_id.contains_key(job.id.as_str()) {
            ids.push(job.id.clone());
            proof {
                assert(!before.contains(job@.id)) by {
                    if before.contains(job@.id) {
                        let i = choose|i: int| 0 <= i < before.len() && before[i] == job@.id;
                        assert(by_id@.contains_key(before[i]));
                    }
                }
                vstd::seq_lib::lemma_no_dup_in_concat(before, seq![job@.id]);
                assert(seq![job@.id].no_duplicates());
                assert(texts(ids@) =~= before + seq![job@.id]);
            }
        }
        let ghost listed = texts(ids@);
        let ghost map_before = by_id@;
        by_id.insert(job.id.clone(), job);
        proof {
            assert(listed.contains(job@.id)) by {
                if map_before.contains_key(job@.id) {
                    assert(before.contains(job@.id));
                    assert(listed =~= before);
                } else {
                    assert(listed[before.len() as int] == job@.id);
                }
            }
            assert forall|k: Seq<char>| #[trigger] by_id@.contains_key(k) implies listed.contains(
                k,
            ) && by_id@[k]@.id == k by {
                if k != job@.id {
                    assert(map_before.contains_key(k));
                    assert(before.contains(k));
                    let i = choose|i: int| 0 <= i < before.len() && before[i] == k;
                    assert(listed[i] == k);
                }
            }
            assert forall|i: int| 0 <= i < ids@.len() implies by_id@.contains_key(
                #[trigger] texts(ids@)[i],
            ) by {
                if i < before.len() {
                    assert(map_before.contains_key(before[i]));
                }
            }
            assert(row_map(by_id@) =~= row_map(map_before).insert(job@.id, job@));
        }
        *self = RecordTable { by_id, ids };
    }

    /// A copy of every record, each once.
    fn values(&self) -> (all: Vec<EmailJob>)
        ensures
            lists(rows(all@), self@),
    {
        proof {
            use_type_invariant(self);
        }
        let mut all: Vec<EmailJob> = Vec::new();
        let mut i: usize = 0;
        while i < self.ids.len()
            invariant
                0 <= i <= self.ids@.len(),
                all@.len() == i,
                self.inv(),
                forall|j: int|
                    0 <= j < i ==> (#[trigger] all@[j])@ == self.by_id@[texts(self.ids@)[j]]@,
            decreases self.ids@.len() - i,
        {
            assert(self.by_id@.contains_key(texts(self.ids@)[i as int]));
            match self.by_id.get(self.ids[i].as_str()) {
                Some(job) => {
                    all.push(job.clone());
                },
                None => {},
            }
            i = i + 1;
        }
        proof {
            let listing = rows(all@);
            let keys = texts(self.ids@);
            assert forall|j: int| 0 <= j < listing.len() implies #[trigger] listing[j].id
                == keys[j] && self@.contains_key(listing[j].id) && self@[listing[j].id]
                == listing[j] by {
                assert(all@[j]@ == self.by_id@[keys[j]]@);
                assert(self.by_id@.contains_key(keys[j]));
            }
            assert forall|a: int, b: int| 0 <= a < b < listing.len() implies listing[a].id
                != listing[b].id by {
                assert(listing[a].id == keys[a]);
                assert(listing[b].id == keys[b]);
            }
            assert forall|k: Seq<char>| #[trigger] self@.contains_key(k) implies exists|j: int|
                0 <= j < listing.len() && #[trigger] listing[j].id == k by {
                assert(self.by_id@.contains_key(k));
                assert(keys.contains(k));
                let j = choose|j: int| 0 <= j < keys.len() && keys[j] == k;
                assert(listing[j].id == k);
            }
        }
        all
    }
}

/// The in-memory store.
pub struct Store {
    pending: VecDeque<String>,
    processing: StringHashSet,
    records: RecordTable,
}

impl View for Store {
    type V = QueueState;

    closed spec fn view(&self) -> QueueState {
        QueueState { pending: texts(self.pending@), processing: self.processing@, records: self.records@ }
    }
}

impl Store {
    /// An empty store.
    pub fn new() -> (s: Store)
        ensures
            s@ == QueueState::empty(),
    {
        Store {
            pending: VecDeque::new(),
            processing: StringHashSet::new(),
            records: RecordTable::new(),
        }
    }

    /// Appends `id` to the tail of the pending list.
    pub fn push_pending(&mut self, id: String)
        ensures
            final(self)@ == old(self)@.push_pending(id@),
    {
        self.pending.push_back(id);
    }

    /// Removes and returns the head of the pending list; `None` when the list
    /// is empty.
    pub fn pop_pending(&mut self) -> (id: Option<String>)
        ensures
            text_of(id) == old(self)@.head(),
            final(self)@ == old(self)@.pop_pending(),
    {
        self.pending.pop_front()
    }

    /// Adds `id` to the processing set.
    pub fn add_processing(&mut self, id: String)
        ensures
            final(self)@ == old(self)@.add_processing(id@),
    {
        self.processing.insert(id);
    }

    /// Removes `id` from the processing set.
    pub fn remove_processing(&mut self, id: &str)
        ensures
            final(self)@ == old(self)@.remove_processing(id@),
    {
        self.processing.remove(id);
    }

    /// A copy of the record stored under `id`, if there is one. A record is
    /// always found under its own id.
    pub fn record(&self, id: &str) -> (job: Option<EmailJob>)
        ensures
            job_of(job) == self@.record(id@),
            job matches Some(j) ==> j@.id == id@,
    {
        self.records.get(id)
    }

    /// Stores `job` under its id, replacing any earlier record.
    pub fn put_record(&mut self, job: EmailJob)
        ensures
            final(self)@ == old(self)@.put_record(job@),
    {
        self.records.put(job);
    }

    /// A copy of every record, each once, in no particular order.
    pub fn all_records(&self) -> (all: Vec<EmailJob>)
        ensures
            lists(rows(all@), self@.records),
    {
        self.records.values()
    }

    /// Makes one write.
    pub fn apply(&mut self, write: &StoreWrite)
        ensures
            final(self)@ == old(self)@.apply(write@),
    {
        match write {
            StoreWrite::PutRecord(job) => self.put_record(job.clone()),
            StoreWrite::PushPending(id) => self.push_pending(id.clone()),
            StoreWrite::AddProcessing(id) => self.add_processing(id.clone()),
            StoreWrite::RemoveProcessing(id) => self.remove_processing(id.as_str()),
        }
    }

    /// Makes the writes of a plan, in order.
    pub fn apply_all(&mut self, plan: &Vec<StoreWrite>)
        ensures
            final(self)@ == old(self)@.apply_all(writes(plan@)),
    {
        let ghost start = self@;
        let mut i: usize = 0;
        while i < plan.len()
            invariant
                0 <= i <= plan@.len(),
                self@ == start.apply_all(writes(plan@).take(i as int)),
            decreases plan@.len() - i,
        {
            proof {
                let next = writes(plan@).take(i + 1);
                assert(next.drop_last() =~= writes(plan@).take(i as int));
                assert(next.last() == plan@[i as int]@);
            }
            self.apply(&plan[i]);
            i = i + 1;
        }
        proof {
            assert(writes(plan@).take(i as int) =~= writes(plan@));
        }
    }

    /// The length of the pending list.
    pub fn pending_len(&self) -> (n: u64)
        ensures
            n == self@.pending.len(),
    {
        self.pending.len() as u64
    }

    /// The size of the processing set.
    pub fn processing_len(&self) -> (n: u64)
        ensures
            n == self@.processing.len(),
    {
        self.processing.len() as u64
    }
}

} // verus!
