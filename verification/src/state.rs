//! The mathematical model of the queue: what the store holds, what each
//! store primitive and each queue operation does to it, and the invariant
//! that the job lifecycle maintains.

use vstd::prelude::*;

use crate::models::{EmailStatus, JobView, Timestamp};

verus! {

/// What the store holds: the ids awaiting a worker, oldest first; the ids a
/// worker has claimed; and the record of every job by id.
#[verifier::ext_equal]
pub struct QueueState {
    pub pending: Seq<Seq<char>>,
    pub processing: Set<Seq<char>>,
    pub records: Map<Seq<char>, JobView>,
}

/// One write to the store.
#[verifier::ext_equal]
pub enum Write {
    /// Store a job record under the job's id, replacing any earlier one.
    PutRecord(JobView),
    /// Append an id to the tail of the pending list.
    PushPending(Seq<char>),
    /// Add an id to the processing set.
    AddProcessing(Seq<char>),
    /// Remove an id from the processing set.
    RemoveProcessing(Seq<char>),
}

/// The counts that `stats` reports.
pub struct Tally {
    pub pending: nat,
    pub processing: nat,
    pub sent: nat,
    pub failed: nat,
}

impl QueueState {
    /// The store before anything was enqueued.
    pub open spec fn empty() -> QueueState {
        QueueState { pending: Seq::empty(), processing: Set::empty(), records: Map::empty() }
    }

    // ----- the store primitives -----

    pub open spec fn put_record(self, job: JobView) -> QueueState {
        QueueState { records: self.records.insert(job.id, job), ..self }
    }

    pub open spec fn push_pending(self, id: Seq<char>) -> QueueState {
        QueueState { pending: self.pending.push(id), ..self }
    }

    /// The id at the head of the pending list, if there is one.
    pub open spec fn head(self) -> Option<Seq<char>> {
        if self.pending.len() > 0 {
            Some(self.pending[0])
        } else {
            None
        }
    }

    /// The store with the head of the pending list removed.
    pub open spec fn pop_pending(self) -> QueueState {
        if self.pending.len() > 0 {
            QueueState { pending: self.pending.drop_first(), ..self }
        } else {
            self
        }
    }

    pub open spec fn add_processing(self, id: Seq<char>) -> QueueState {
        QueueState { processing: self.processing.insert(id), ..self }
    }

    pub open spec fn remove_processing(self, id: Seq<char>) -> QueueState {
        QueueState { processing: self.processing.remove(id), ..self }
    }

    /// The record stored under `id`, if there is one.
    pub open spec fn record(self, id: Seq<char>) -> Option<JobView> {
        if self.records.contains_key(id) {
            Some(self.records[id])
        } else {
            None
        }
    }

    /// The store after one write.
    pub open spec fn apply(self, w: Write) -> QueueState {
        match w {
            Write::PutRecord(job) => self.put_record(job),
            Write::PushPending(id) => self.push_pending(id),
            Write::AddProcessing(id) => self.add_processing(id),
            Write::RemoveProcessing(id) => self.remove_processing(id),
        }
    }

    /// The store after a list of writes, made in order.
    pub open spec fn apply_all(self, ws: Seq<Write>) -> QueueState
        decreases ws.len(),
    {
        if ws.len() == 0 {
            self
        } else {
            self.apply_all(ws.drop_last()).apply(ws.last())
        }
    }

    // ----- the queue operations -----

    /// Whether a record is stored under `id` and has the given status.
    pub open spec fn has_status(self, id: Seq<char>, status: EmailStatus) -> bool {
        self.records.contains_key(id) && self.records[id].status == status
    }

    /// The store after `job` was enqueued: its record is stored, then its id
    /// joins the tail of the pending list.
    pub open spec fn enqueue(self, job: JobView) -> QueueState {
        QueueState {
            pending: self.pending.push(job.id),
            processing: self.processing,
            records: self.records.insert(job.id, job),
        }
    }

    /// The job that `dequeue` hands to the worker: the record of the head of
    /// the pending list, marked as processing. None when the list is empty or
    /// when no record is stored under the head.
    pub open spec fn dequeued(self) -> Option<JobView> {
        if self.pending.len() > 0 && self.records.contains_key(self.pending[0]) {
            Some(self.records[self.pending[0]].claimed())
        } else {
            None
        }
    }

    /// The store after `dequeue`: the head has left the pending list; if a
    /// record is stored under it, the record is marked as processing and the
    /// id has joined the processing set.
    pub open spec fn dequeue(self) -> QueueState {
        if self.pending.len() == 0 {
            self
        } else if self.records.contains_key(self.pending[0]) {
            QueueState {
                pending: self.pending.drop_first(),
                processing: self.processing.insert(self.pending[0]),
                records: self.records.insert(
                    self.pending[0],
                    self.records[self.pending[0]].claimed(),
                ),
            }
        } else {
            QueueState { pending: self.pending.drop_first(), ..self }
        }
    }

    /// The store after `complete(id)` at time `now`: nothing changes when no
    /// record is stored under `id`; otherwise the record is marked as sent
    /// and the id leaves the processing set.
    pub open spec fn complete(self, id: Seq<char>, now: Timestamp) -> QueueState {
        if self.records.contains_key(id) {
            QueueState {
                pending: self.pending,
                processing: self.processing.remove(id),
                records: self.records.insert(id, self.records[id].sent(now)),
            }
        } else {
            self
        }
    }

    /// What `fail(id, ..)` returns: whether the job will be tried again.
    pub open spec fn retries_after_fail(self, id: Seq<char>) -> bool {
        self.records.contains_key(id) && self.records[id].will_retry()
    }

    /// The store after `fail(id, error)`: nothing changes when no record is
    /// stored under `id`; otherwise the failure is recorded, the id leaves
    /// the processing set, and, if the job will be tried again, the id
    /// joins the tail of the pending list.
    pub open spec fn fail(self, id: Seq<char>, error: Seq<char>) -> QueueState {
        if self.records.contains_key(id) {
            QueueState {
                pending: if self.records[id].will_retry() {
                    self.pending.push(id)
                } else {
                    self.pending
                },
                processing: self.processing.remove(id),
                records: self.records.insert(id, self.records[id].failed(error)),
            }
        } else {
            self
        }
    }

    /// The ids whose record has the given status.
    pub open spec fn with_status(self, status: EmailStatus) -> Set<Seq<char>> {
        self.records.dom().filter(|id: Seq<char>| self.records[id].status == status)
    }

    /// What `stats` reports: the length of the pending list, the size of the
    /// processing set, and the number of records that are sent and failed.
    pub open spec fn tally(self) -> Tally {
        Tally {
            pending: self.pending.len(),
            processing: self.processing.len(),
            sent: self.with_status(EmailStatus::Sent).len(),
            failed: self.with_status(EmailStatus::Failed).len(),
        }
    }

    // ----- the invariant -----

    /// Every record is stored under its own id.
    pub open spec fn keyed(self) -> bool {
        forall|id: Seq<char>| #[trigger]
            self.records.contains_key(id) ==> self.records[id].id == id
    }

    /// The invariant of the job lifecycle: an id is in the pending list,
    /// once, exactly while its job is pending; it is in the processing set
    /// exactly while its job is processing; and every record is lawful.
    pub open spec fn consistent(self) -> bool {
        &&& self.keyed()
        &&& self.records.dom().finite()
        &&& self.processing.finite()
        &&& self.pending.no_duplicates()
        &&& forall|id: Seq<char>|
            #![trigger self.pending.contains(id)]
            #![trigger self.has_status(id, EmailStatus::Pending)]
            self.pending.contains(id) <==> self.has_status(id, EmailStatus::Pending)
        &&& forall|id: Seq<char>|
            #![trigger self.processing.contains(id)]
            #![trigger self.has_status(id, EmailStatus::Processing)]
            self.processing.contains(id) <==> self.has_status(id, EmailStatus::Processing)
        &&& forall|id: Seq<char>| #[trigger]
            self.records.contains_key(id) ==> self.records[id].lawful()
    }

    /// Whether `job` may be enqueued without disturbing the lifecycle: it is
    /// as `enqueue` creates it, and its id is not in use.
    pub open spec fn admits_new(self, job: JobView) -> bool {
        &&& !self.records.contains_key(job.id)
        &&& job == JobView::fresh(
            job.id,
            job.to,
            job.subject,
            job.template,
            job.data,
            job.created_at,
        )
    }

    /// Whether an outcome may be reported for `id`: the job was claimed by a
    /// worker and is still processing, or there is no such job at all (then
    /// the report changes nothing).
    pub open spec fn admits_report(self, id: Seq<char>) -> bool {
        self.records.contains_key(id) ==> self.records[id].status == EmailStatus::Processing
    }
}

/// The empty store is consistent.
pub proof fn lemma_empty_consistent()
    ensures
        QueueState::empty().consistent(),
{
}

/// Enqueueing a new job under an unused id keeps the store consistent.
pub proof fn lemma_enqueue_consistent(s: QueueState, job: JobView)
    requires
        s.consistent(),
        s.admits_new(job),
    ensures
        s.enqueue(job).consistent(),
{
    let t = s.enqueue(job);
    assert(!s.pending.contains(job.id)) by {
        assert(!s.has_status(job.id, EmailStatus::Pending));
    }
    assert(t.pending.no_duplicates()) by {
        vstd::seq_lib::lemma_no_dup_in_concat(s.pending, seq![job.id]);
        assert(seq![job.id].no_duplicates());
        assert(s.pending + seq![job.id] =~= s.pending.push(job.id));
    }
    assert forall|id: Seq<char>| t.pending.contains(id) <==> t.has_status(
        id,
        EmailStatus::Pending,
    ) by {
        if t.pending.contains(id) {
            let i = choose|i: int| 0 <= i < t.pending.len() && t.pending[i] == id;
            if i < s.pending.len() {
                assert(s.pending[i] == id);
                assert(s.pending.contains(id));
            }
        }
        if t.has_status(id, EmailStatus::Pending) {
            if id == job.id {
                assert(t.pending[s.pending.len() as int] == id);
            } else {
                assert(s.has_status(id, EmailStatus::Pending));
                assert(s.pending.contains(id));
                let i = choose|i: int| 0 <= i < s.pending.len() && s.pending[i] == id;
                assert(t.pending[i] == id);
            }
        }
    }
    assert forall|id: Seq<char>| t.processing.contains(id) <==> t.has_status(
        id,
        EmailStatus::Processing,
    ) by {
        if id != job.id {
            assert(s.processing.contains(id) <==> s.has_status(id, EmailStatus::Processing));
        } else {
            assert(!s.has_status(id, EmailStatus::Processing));
        }
    }
}

/// `dequeue` keeps the store consistent.
pub proof fn lemma_dequeue_consistent(s: QueueState)
    requires
        s.consistent(),
    ensures
        s.dequeue().consistent(),
        s.pending.len() > 0 ==> s.dequeued() is Some,
{
    if s.pending.len() > 0 {
        let t = s.dequeue();
        let h = s.pending[0];
        assert(s.pending.contains(h));
        assert(s.has_status(h, EmailStatus::Pending));
        assert(t.pending.no_duplicates());
        assert forall|id: Seq<char>| t.pending.contains(id) <==> t.has_status(
            id,
            EmailStatus::Pending,
        ) by {
            if t.pending.contains(id) {
                let i = choose|i: int| 0 <= i < t.pending.len() && t.pending[i] == id;
                assert(s.pending[i + 1] == id);
                assert(s.pending.contains(id));
                assert(id != h);
                assert(s.has_status(id, EmailStatus::Pending));
            }
            if t.has_status(id, EmailStatus::Pending) {
                assert(id != h);
                assert(s.has_status(id, EmailStatus::Pending));
                assert(s.pending.contains(id));
                let i = choose|i: int| 0 <= i < s.pending.len() && s.pending[i] == id;
                assert(i > 0);
                assert(t.pending[i - 1] == id);
            }
        }
        assert forall|id: Seq<char>| t.processing.contains(id) <==> t.has_status(
            id,
            EmailStatus::Processing,
        ) by {
            if id != h {
                assert(s.processing.contains(id) <==> s.has_status(id, EmailStatus::Processing));
            }
        }
    }
}

/// `complete` keeps the store consistent when it is called for a job that is
/// processing, or for an id without a record.
pub proof fn lemma_complete_consistent(s: QueueState, id: Seq<char>, now: Timestamp)
    requires
        s.consistent(),
        s.admits_report(id),
    ensures
        s.complete(id, now).consistent(),
{
    if s.records.contains_key(id) {
        let t = s.complete(id, now);
        assert(s.has_status(id, EmailStatus::Processing));
        assert forall|k: Seq<char>| t.pending.contains(k) <==> t.has_status(
            k,
            EmailStatus::Pending,
        ) by {
            if k != id {
                assert(s.pending.contains(k) <==> s.has_status(k, EmailStatus::Pending));
            } else {
                assert(!s.has_status(k, EmailStatus::Pending));
            }
        }
        assert forall|k: Seq<char>| t.processing.contains(k) <==> t.has_status(
            k,
            EmailStatus::Processing,
        ) by {
            if k != id {
                assert(s.processing.contains(k) <==> s.has_status(k, EmailStatus::Processing));
            }
        }
    }
}

/// `fail` keeps the store consistent when it is called for a job that is
/// processing, or for an id without a record.
pub proof fn lemma_fail_consistent(s: QueueState, id: Seq<char>, error: Seq<char>)
    requires
        s.consistent(),
        s.admits_report(id),
    ensures
        s.fail(id, error).consistent(),
{
    if s.records.contains_key(id) {
        let t = s.fail(id, error);
        assert(s.has_status(id, EmailStatus::Processing));
        assert(!s.has_status(id, EmailStatus::Pending));
        assert(!s.pending.contains(id));
        assert(s.records[id].lawful());
        assert(t.pending.no_duplicates()) by {
            if s.records[id].will_retry() {
                vstd::seq_lib::lemma_no_dup_in_concat(s.pending, seq![id]);
                assert(seq![id].no_duplicates());
                assert(s.pending + seq![id] =~= s.pending.push(id));
            }
        }
        assert forall|k: Seq<char>| t.pending.contains(k) <==> t.has_status(
            k,
            EmailStatus::Pending,
        ) by {
            if k != id {
                assert(s.pending.contains(k) <==> s.has_status(k, EmailStatus::Pending));
                if s.pending.contains(k) {
                    let i = choose|i: int| 0 <= i < s.pending.len() && s.pending[i] == k;
                    assert(t.pending[i] == k);
                }
                if t.pending.contains(k) {
                    let i = choose|i: int| 0 <= i < t.pending.len() && t.pending[i] == k;
                    assert(i < s.pending.len());
                    assert(s.pending[i] == k);
                }
            } else {
                if s.records[id].will_retry() {
                    assert(t.pending[s.pending.len() as int] == id);
                } else {
                    if t.pending.contains(k) {
                        assert(false);
                    }
                }
            }
        }
        assert forall|k: Seq<char>| t.processing.contains(k) <==> t.has_status(
            k,
            EmailStatus::Processing,
        ) by {
            if k != id {
                assert(s.processing.contains(k) <==> s.has_status(k, EmailStatus::Processing));
            }
        }
    }
}

} // verus!
