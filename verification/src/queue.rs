//! The job queue: enqueue, dequeue, complete, fail, stats and lookup.
//!
//! Every operation is a plan: from what it read of the store it decides the
//! writes to make and the answer to give. [`EmailQueue`] carries the plans
//! out on the in-memory [`Store`]; a caller that keeps the state elsewhere
//! makes the same reads, asks for the same plan, and makes its writes there.

use vstd::prelude::*;

use crate::deps::{fresh_job_id, now};
use crate::laws::lemma_counts_match;
use crate::models::{
    job_of, EmailJob, EmailStatus, EmailTemplate, JobView, QueueStats, Timestamp,
};
use crate::state::{
    lemma_complete_consistent, lemma_dequeue_consistent, lemma_enqueue_consistent,
    lemma_fail_consistent, QueueState, Write,
};
use crate::store::{lists, rows, writes, Store, StoreWrite};

verus! {

// ----- the plans, as mathematics -----

/// The writes of `enqueue`: the record first, the pending list second.
pub open spec fn enqueue_writes(job: JobView) -> Seq<Write> {
    seq![Write::PutRecord(job), Write::PushPending(job.id)]
}

/// The writes of `dequeue` once it has popped an id and read its record.
pub open spec fn claim_writes(record: Option<JobView>) -> Seq<Write> {
    match record {
        Some(job) => seq![Write::PutRecord(job.claimed()), Write::AddProcessing(job.id)],
        None => Seq::empty(),
    }
}

/// The job that `dequeue` returns once it has popped an id and read its
/// record.
pub open spec fn claim_result(record: Option<JobView>) -> Option<JobView> {
    match record {
        Some(job) => Some(job.claimed()),
        None => None,
    }
}

/// The writes of `complete` once it has read the record.
pub open spec fn complete_writes(record: Option<JobView>, now: Timestamp) -> Seq<Write> {
    match record {
        Some(job) => seq![Write::PutRecord(job.sent(now)), Write::RemoveProcessing(job.id)],
        None => Seq::empty(),
    }
}

/// The writes of `fail` once it has read the record.
pub open spec fn fail_writes(record: Option<JobView>, error: Seq<char>) -> Seq<Write> {
    match record {
        Some(job) => if job.will_retry() {
            seq![
                Write::RemoveProcessing(job.id),
                Write::PutRecord(job.failed(error)),
                Write::PushPending(job.id),
            ]
        } else {
            seq![Write::RemoveProcessing(job.id), Write::PutRecord(job.failed(error))]
        },
        None => Seq::empty(),
    }
}

/// What `fail` returns once it has read the record.
pub open spec fn fail_result(record: Option<JobView>) -> bool {
    match record {
        Some(job) => job.will_retry(),
        None => false,
    }
}

/// How many jobs of a listing have the given status.
pub open spec fn count_status(listing: Seq<JobView>, status: EmailStatus) -> nat
    decreases listing.len(),
{
    if listing.len() == 0 {
        0
    } else {
        count_status(listing.drop_last(), status) + if listing.last().status == status {
            1nat
        } else {
            0nat
        }
    }
}

// ----- the plans carried out give the operations -----

proof fn lemma_apply_two(s: QueueState, a: Write, b: Write)
    ensures
        s.apply_all(seq![a, b]) == s.apply(a).apply(b),
{
    let ws = seq![a, b];
    assert(ws.drop_last() =~= seq![a]);
    assert(seq![a].drop_last() =~= Seq::<Write>::empty());
    assert(s.apply_all(Seq::<Write>::empty()) == s);
    assert(s.apply_all(seq![a]) == s.apply(a));
}

proof fn lemma_apply_three(s: QueueState, a: Write, b: Write, c: Write)
    ensures
        s.apply_all(seq![a, b, c]) == s.apply(a).apply(b).apply(c),
{
    let ws = seq![a, b, c];
    assert(ws.drop_last() =~= seq![a, b]);
    lemma_apply_two(s, a, b);
}

/// Carrying out the plan of `enqueue` enqueues the job.
pub proof fn lemma_enqueue_plan(s: QueueState, job: JobView)
    ensures
        s.apply_all(enqueue_writes(job)) == s.enqueue(job),
{
    lemma_apply_two(s, Write::PutRecord(job), Write::PushPending(job.id));
}

/// Popping the head and carrying out the plan of `dequeue` for the record
/// found under it dequeues.
pub proof fn lemma_claim_plan(s: QueueState)
    requires
        s.pending.len() > 0,
        s.records.contains_key(s.pending[0]) ==> s.records[s.pending[0]].id == s.pending[0],
    ensures
        s.pop_pending().apply_all(claim_writes(s.record(s.pending[0]))) == s.dequeue(),
        claim_result(s.record(s.pending[0])) == s.dequeued(),
{
    let t = s.pop_pending();
    match s.record(s.pending[0]) {
        Some(job) => {
            lemma_apply_two(t, Write::PutRecord(job.claimed()), Write::AddProcessing(job.id));
        },
        None => {},
    }
}

/// Carrying out the plan of `complete` for the record found under `id`
/// completes the job.
pub proof fn lemma_complete_plan(s: QueueState, id: Seq<char>, now: Timestamp)
    requires
        s.records.contains_key(id) ==> s.records[id].id == id,
    ensures
        s.apply_all(complete_writes(s.record(id), now)) == s.complete(id, now),
{
    match s.record(id) {
        Some(job) => {
            lemma_apply_two(s, Write::PutRecord(job.sent(now)), Write::RemoveProcessing(job.id));
        },
        None => {},
    }
}

/// Carrying out the plan of `fail` for the record found under `id` fails the
/// job.
pub proof fn lemma_fail_plan(s: QueueState, id: Seq<char>, error: Seq<char>)
    requires
        s.records.contains_key(id) ==> s.records[id].id == id,
    ensures
        s.apply_all(fail_writes(s.record(id), error)) == s.fail(id, error),
        fail_result(s.record(id)) == s.retries_after_fail(id),
{
    match s.record(id) {
        Some(job) => {
            if job.will_retry() {
                lemma_apply_three(
                    s,
                    Write::RemoveProcessing(job.id),
                    Write::PutRecord(job.failed(error)),
                    Write::PushPending(job.id),
                );
            } else {
                lemma_apply_two(
                    s,
                    Write::RemoveProcessing(job.id),
                    Write::PutRecord(job.failed(error)),
                );
            }
        },
        None => {},
    }
}

/// The ids of the first `n` jobs of a listing that have the given status.
pub open spec fn listed_with_status(listing: Seq<JobView>, n: int, status: EmailStatus) -> Set<
    Seq<char>,
> {
    Set::new(
        |k: Seq<char>|
            exists|i: int|
                0 <= i < n && i < listing.len() && #[trigger] listing[i].id == k
                    && listing[i].status == status,
    )
}

proof fn lemma_count_prefix(listing: Seq<JobView>, n: int, status: EmailStatus)
    requires
        0 <= n <= listing.len(),
        forall|i: int, j: int| 0 <= i < j < listing.len() ==> listing[i].id != listing[j].id,
    ensures
        listed_with_status(listing, n, status).finite(),
        listed_with_status(listing, n, status).len() == count_status(listing.take(n), status),
    decreases n,
{
    let now = listed_with_status(listing, n, status);
    if n == 0 {
        assert(now =~= Set::<Seq<char>>::empty());
        assert(listing.take(0) =~= Seq::<JobView>::empty());
    } else {
        lemma_count_prefix(listing, n - 1, status);
        let before = listed_with_status(listing, n - 1, status);
        let job = listing[n - 1];
        assert(listing.take(n).drop_last() =~= listing.take(n - 1));
        assert(listing.take(n).last() == job);
        if job.status == status {
            assert(!before.contains(job.id)) by {
                if before.contains(job.id) {
                    let i = choose|i: int|
                        0 <= i < n - 1 && i < listing.len() && #[trigger] listing[i].id == job.id
                            && listing[i].status == status;
                    assert(listing[i].id != listing[n - 1].id);
                }
            }
            assert(now =~= before.insert(job.id)) by {
                assert forall|k: Seq<char>| now.contains(k) <==> before.insert(job.id).contains(
                    k,
                ) by {
                    if now.contains(k) {
                        let i = choose|i: int|
                            0 <= i < n && i < listing.len() && #[trigger] listing[i].id == k
                                && listing[i].status == status;
                        if i < n - 1 {
                            assert(before.contains(k));
                        }
                    }
                    if before.contains(k) {
                        let i = choose|i: int|
                            0 <= i < n - 1 && i < listing.len() && #[trigger] listing[i].id == k
                                && listing[i].status == status;
                        assert(now.contains(k));
                    }
                    if k == job.id {
                        assert(listing[n - 1].id == k);
                        assert(now.contains(k));
                    }
                }
            }
        } else {
            assert(now =~= before) by {
                assert forall|k: Seq<char>| now.contains(k) <==> before.contains(k) by {
                    if now.contains(k) {
                        let i = choose|i: int|
                            0 <= i < n && i < listing.len() && #[trigger] listing[i].id == k
                                && listing[i].status == status;
                        assert(i < n - 1);
                        assert(before.contains(k));
                    }
                    if before.contains(k) {
                        let i = choose|i: int|
                            0 <= i < n - 1 && i < listing.len() && #[trigger] listing[i].id == k
                                && listing[i].status == status;
                        assert(now.contains(k));
                    }
                }
            }
        }
    }
}

/// Counting the jobs of a given status in a complete listing of the records
/// gives the number of records with that status.
pub proof fn lemma_count_listing(s: QueueState, listing: Seq<JobView>, status: EmailStatus)
    requires
        lists(listing, s.records),
    ensures
        s.with_status(status).finite(),
        count_status(listing, status) == s.with_status(status).len(),
{
    lemma_count_prefix(listing, listing.len() as int, status);
    assert(listing.take(listing.len() as int) =~= listing);
    let counted = listed_with_status(listing, listing.len() as int, status);
    assert(counted =~= s.with_status(status)) by {
        assert forall|k: Seq<char>| counted.contains(k) <==> s.with_status(status).contains(
            k,
        ) by {
            if counted.contains(k) {
                let i = choose|i: int|
                    0 <= i < listing.len() && i < listing.len() && #[trigger] listing[i].id == k
                        && listing[i].status == status;
                assert(s.records.contains_key(listing[i].id));
            }
            if s.with_status(status).contains(k) {
                assert(s.records.contains_key(k));
                let i = choose|i: int| 0 <= i < listing.len() && #[trigger] listing[i].id == k;
                assert(s.records[listing[i].id] == listing[i]);
                assert(counted.contains(k));
            }
        }
    }
}

// ----- the plans, as code -----

/// The writes that enqueue `job`.
pub fn plan_enqueue(job: EmailJob) -> (plan: Vec<StoreWrite>)
    ensures
        writes(plan@) == enqueue_writes(job@),
{
    let id = job.id.clone();
    let mut plan: Vec<StoreWrite> = Vec::new();
    plan.push(StoreWrite::PutRecord(job));
    plan.push(StoreWrite::PushPending(id));
    assert(writes(plan@) =~= enqueue_writes(job@));
    plan
}

/// What `dequeue` does with the record read for the id it popped: the job
/// to hand to the worker, and the writes that mark it as processing.
pub fn plan_claim(record: Option<EmailJob>) -> (plan: (Option<EmailJob>, Vec<StoreWrite>))
    ensures
        job_of(plan.0) == claim_result(job_of(record)),
        writes(plan.1@) == claim_writes(job_of(record)),
{
    let mut plan: Vec<StoreWrite> = Vec::new();
    match record {
        Some(job) => {
            let mut job = job;
            job.mark_processing();
            plan.push(StoreWrite::PutRecord(job.clone()));
            plan.push(StoreWrite::AddProcessing(job.id.clone()));
            assert(writes(plan@) =~= claim_writes(job_of(record)));
            (Some(job), plan)
        },
        None => {
            assert(writes(plan@) =~= claim_writes(job_of(record)));
            (None, plan)
        },
    }
}

/// What `complete` does with the record read for its id: the writes that
/// mark the job as sent at `now`.
pub fn plan_complete(record: Option<EmailJob>, now: Timestamp) -> (plan: Vec<StoreWrite>)
    ensures
        writes(plan@) == complete_writes(job_of(record), now),
{
    let mut plan: Vec<StoreWrite> = Vec::new();
    match record {
        Some(job) => {
            let mut job = job;
            let id = job.id.clone();
            job.mark_sent(now);
            plan.push(StoreWrite::PutRecord(job));
            plan.push(StoreWrite::RemoveProcessing(id));
        },
        None => {},
    }
    assert(writes(plan@) =~= complete_writes(job_of(record), now));
    plan
}

/// What `fail` does with the record read for its id: whether the job will
/// be tried again, and the writes that record the failure.
pub fn plan_fail(record: Option<EmailJob>, error: &str) -> (plan: (bool, Vec<StoreWrite>))
    ensures
        plan.0 == fail_result(job_of(record)),
        writes(plan.1@) == fail_writes(job_of(record), error@),
{
    let mut plan: Vec<StoreWrite> = Vec::new();
    match record {
        Some(job) => {
            let mut job = job;
            let id = job.id.clone();
            let will_retry = job.record_failure(error);
            plan.push(StoreWrite::RemoveProcessing(id.clone()));
            plan.push(StoreWrite::PutRecord(job));
            if will_retry {
                plan.push(StoreWrite::PushPending(id));
            }
            assert(writes(plan@) =~= fail_writes(job_of(record), error@));
            (will_retry, plan)
        },
        None => {
            assert(writes(plan@) =~= fail_writes(job_of(record), error@));
            (false, plan)
        },
    }
}

/// The statistics, from the length of the pending list, the size of the
/// processing set and a listing of the job records.
pub fn tally(pending: u64, processing: u64, records: &Vec<EmailJob>) -> (stats: QueueStats)
    ensures
        stats.pending == pending,
        stats.processing == processing,
        stats.sent == count_status(rows(records@), EmailStatus::Sent),
        stats.failed == count_status(rows(records@), EmailStatus::Failed),
{
    let mut sent: u64 = 0;
    let mut failed: u64 = 0;
    let mut i: usize = 0;
    while i < records.len()
        invariant
            0 <= i <= records@.len(),
            sent <= i,
            failed <= i,
            sent == count_status(rows(records@).take(i as int), EmailStatus::Sent),
            failed == count_status(rows(records@).take(i as int), EmailStatus::Failed),
        decreases records@.len() - i,
    {
        proof {
            let next = rows(records@).take(i + 1);
            assert(next.drop_last() =~= rows(records@).take(i as int));
            assert(next.last() == records@[i as int]@);
        }
        match records[i].status {
            EmailStatus::Sent => {
                sent = sent + 1;
            },
            EmailStatus::Failed => {
                failed = failed + 1;
            },
            _ => {},
        }
        i = i + 1;
    }
    proof {
        assert(rows(records@).take(i as int) =~= rows(records@));
    }
    QueueStats { pending, processing, sent, failed }
}

// ----- the queue -----

/// The job queue, on the in-memory store.
pub struct EmailQueue {
    store: Store,
}

impl View for EmailQueue {
    type V = QueueState;

    closed spec fn view(&self) -> QueueState {
        self.store@
    }
}

impl EmailQueue {
    /// An empty queue.
    pub fn new() -> (queue: EmailQueue)
        ensures
            queue@ == QueueState::empty(),
    {
        EmailQueue { store: Store::new() }
    }

    /// Adds a new email job to the queue under a newly generated id, created
    /// at the current time, and returns the id.
    ///
    /// The id is random and the time is the clock's, so the contract says
    /// what holds whatever they are; [`EmailQueue::enqueue_at`] is the same
    /// operation with both given. That the id is not in use rests on the
    /// generator: a random UUID does not come twice in practice, and the
    /// queue stays consistent whenever it did not.
    pub fn enqueue(
        &mut self,
        to: String,
        subject: String,
        template: EmailTemplate,
        data: serde_json::Value,
    ) -> (job_id: String)
        ensures
            exists|now: Timestamp|
                final(self)@ == old(self)@.enqueue(
                    #[trigger] JobView::fresh(job_id@, to@, subject@, template, data, now),
                ),
            old(self)@.consistent() && !old(self)@.records.contains_key(job_id@) ==> final(self)@.consistent(),
    {
        let id = fresh_job_id();
        let created = now();
        let job_id = self.enqueue_at(id, to, subject, template, data, created);
        assert(final(self)@ == old(self)@.enqueue(
            JobView::fresh(job_id@, to@, subject@, template, data, created),
        ));
        job_id
    }

    /// Adds a new email job to the queue under `id`, created at `now`: stores
    /// its record, then appends the id to the pending list. Returns the id.
    pub fn enqueue_at(
        &mut self,
        id: String,
        to: String,
        subject: String,
        template: EmailTemplate,
        data: serde_json::Value,
        now: Timestamp,
    ) -> (job_id: String)
        ensures
            job_id@ == id@,
            final(self)@ == old(self)@.enqueue(
                JobView::fresh(id@, to@, subject@, template, data, now),
            ),
            old(self)@.consistent() && !old(self)@.records.contains_key(id@) ==> final(self)@.consistent(),
    {
        let job_id = id.clone();
        let job = EmailJob::new(id, to, subject, template, data, now);
        proof {
            lemma_enqueue_plan(self@, job@);
            if self@.consistent() && !self@.records.contains_key(job@.id) {
                lemma_enqueue_consistent(self@, job@);
            }
        }
        let plan = plan_enqueue(job);
        self.store.apply_all(&plan);
        job_id
    }

    /// Takes the next job from the queue: the head of the pending list. The
    /// job is marked as processing, joins the processing set, and is
    /// returned. `None` when nothing is pending, and also when no record is
    /// stored under the popped id, which is then dropped.
    pub fn dequeue(&mut self) -> (job: Option<EmailJob>)
        ensures
            job_of(job) == old(self)@.dequeued(),
            final(self)@ == old(self)@.dequeue(),
            job matches Some(j) ==> old(self)@.pending.len() > 0 && j@.id == old(self)@.pending[0]
                && final(self)@.pending == old(self)@.pending.drop_first(),
            old(self)@.consistent() ==> final(self)@.consistent(),
            old(self)@.consistent() ==> (job is Some <==> old(self)@.pending.len() > 0),
            old(self)@.consistent() ==> (job matches Some(j) ==> !final(self)@.pending.contains(
                j@.id,
            )),
    {
        proof {
            if self@.consistent() {
                lemma_dequeue_consistent(self@);
            }
        }
        match self.store.pop_pending() {
            Some(id) => {
                let record = self.store.record(id.as_str());
                proof {
                    lemma_claim_plan(old(self)@);
                }
                let (job, plan) = plan_claim(record);
                self.store.apply_all(&plan);
                proof {
                    if old(self)@.consistent() && job is Some {
                        let jid = job.unwrap()@.id;
                        assert(final(self)@.has_status(jid, EmailStatus::Processing));
                        assert(!final(self)@.has_status(jid, EmailStatus::Pending));
                    }
                }
                job
            },
            None => None,
        }
    }

    /// Marks a job as completed at the current time.
    ///
    /// The time is the clock's, so the contract says what holds whatever it
    /// is; [`EmailQueue::complete_at`] is the same operation with the time
    /// given.
    pub fn complete(&mut self, job_id: &str)
        ensures
            exists|now: Timestamp| final(self)@ == #[trigger] old(self)@.complete(job_id@, now),
            !old(self)@.records.contains_key(job_id@) ==> final(self)@ == old(self)@,
            old(self)@.consistent() && old(self)@.admits_report(job_id@) ==> final(self)@.consistent(),
    {
        let finished = now();
        self.complete_at(job_id, finished);
        assert(final(self)@ == old(self)@.complete(job_id@, finished));
    }

    /// Marks a job as completed at `now`: the record becomes sent, with `now`
    /// as its delivery time, and the id leaves the processing set. Nothing
    /// changes when no record is stored under `job_id`.
    pub fn complete_at(&mut self, job_id: &str, now: Timestamp)
        ensures
            final(self)@ == old(self)@.complete(job_id@, now),
            old(self)@.consistent() && old(self)@.admits_report(job_id@) ==> final(self)@.consistent(),
    {
        let record = self.store.record(job_id);
        proof {
            lemma_complete_plan(self@, job_id@, now);
            if self@.consistent() && self@.admits_report(job_id@) {
                lemma_complete_consistent(self@, job_id@, now);
            }
        }
        let plan = plan_complete(record, now);
        self.store.apply_all(&plan);
    }

    /// Marks a job as failed with `error`. The failure is counted and
    /// recorded and the id leaves the processing set. While attempts are
    /// left the job is pending again, its id at the tail of the pending
    /// list, and the result is `true`; otherwise the job has terminally
    /// failed and the result is `false`. Nothing changes, and the result is
    /// `false`, when no record is stored under `job_id`.
    pub fn fail(&mut self, job_id: &str, error: &str) -> (will_retry: bool)
        ensures
            final(self)@ == old(self)@.fail(job_id@, error@),
            will_retry == old(self)@.retries_after_fail(job_id@),
            old(self)@.consistent() && old(self)@.admits_report(job_id@) ==> final(self)@.consistent(),
    {
        let record = self.store.record(job_id);
        proof {
            lemma_fail_plan(self@, job_id@, error@);
            if self@.consistent() && self@.admits_report(job_id@) {
                lemma_fail_consistent(self@, job_id@, error@);
            }
        }
        let (will_retry, plan) = plan_fail(record, error);
        self.store.apply_all(&plan);
        will_retry
    }

    /// The queue statistics: the length of the pending list, the size of the
    /// processing set, and the number of sent and of failed jobs, counted
    /// over all records. In a consistent queue the first two are the number
    /// of pending jobs and of jobs in processing.
    pub fn stats(&self) -> (stats: QueueStats)
        ensures
            stats.pending == self@.tally().pending,
            stats.processing == self@.tally().processing,
            stats.sent == self@.tally().sent,
            stats.failed == self@.tally().failed,
            self@.consistent() ==> stats.pending == self@.with_status(EmailStatus::Pending).len()
                && stats.processing == self@.with_status(EmailStatus::Processing).len(),
    {
        let pending = self.store.pending_len();
        let processing = self.store.processing_len();
        let records = self.store.all_records();
        proof {
            lemma_count_listing(self@, rows(records@), EmailStatus::Sent);
            lemma_count_listing(self@, rows(records@), EmailStatus::Failed);
            if self@.consistent() {
                lemma_counts_match(self@);
            }
        }
        tally(pending, processing, &records)
    }

    /// A copy of the record of a job, by id; `None` when there is none.
    pub fn get_job(&self, job_id: &str) -> (job: Option<EmailJob>)
        ensures
            job_of(job) == self@.record(job_id@),
            job matches Some(j) ==> j@.id == job_id@,
    {
        self.store.record(job_id)
    }
}

} // verus!
