//! What holds of the queue over whole histories: the lifecycle invariant is
//! kept by every admissible operation, retries are bounded, terminal jobs
//! stay as they are, jobs are claimed in the order they were queued, the
//! statistics count what is there, and completing twice changes nothing but
//! the delivery time. And what is left of it when an operation on a durable
//! store is cut short between two of its writes.

use vstd::prelude::*;

use crate::models::{EmailStatus, JobView, Timestamp};
use crate::queue::{claim_writes, complete_writes, enqueue_writes, fail_writes};
use crate::state::{
    lemma_complete_consistent, lemma_dequeue_consistent, lemma_enqueue_consistent,
    lemma_fail_consistent, QueueState, Write,
};

verus! {

/// One operation on the queue, with everything it depends on: the job that
/// `enqueue` creates, the time at which `complete` is called.
pub enum Op {
    Enqueue(JobView),
    Dequeue,
    Complete(Seq<char>, Timestamp),
    Fail(Seq<char>, Seq<char>),
}

impl QueueState {
    /// Whether `op` respects the lifecycle in this state: new jobs come under
    /// unused ids, and outcomes are reported only for jobs that a worker has
    /// claimed (or for ids without a record, which changes nothing).
    pub open spec fn admits(self, op: Op) -> bool {
        match op {
            Op::Enqueue(job) => self.admits_new(job),
            Op::Dequeue => true,
            Op::Complete(id, _) => self.admits_report(id),
            Op::Fail(id, _) => self.admits_report(id),
        }
    }

    /// The state after `op`.
    pub open spec fn step(self, op: Op) -> QueueState {
        match op {
            Op::Enqueue(job) => self.enqueue(job),
            Op::Dequeue => self.dequeue(),
            Op::Complete(id, now) => self.complete(id, now),
            Op::Fail(id, error) => self.fail(id, error),
        }
    }

    /// The state after a history of operations, oldest first.
    pub open spec fn run(self, ops: Seq<Op>) -> QueueState
        decreases ops.len(),
    {
        if ops.len() == 0 {
            self
        } else {
            self.step(ops[0]).run(ops.drop_first())
        }
    }

    /// Whether every operation of a history respects the lifecycle in the
    /// state it is made in.
    pub open spec fn admits_all(self, ops: Seq<Op>) -> bool
        decreases ops.len(),
    {
        ops.len() == 0 || (self.admits(ops[0]) && self.step(ops[0]).admits_all(ops.drop_first()))
    }

    /// Whether `a` stands before `b` in the pending list.
    pub open spec fn precedes(self, a: Seq<char>, b: Seq<char>) -> bool {
        exists|i: int, j: int|
            0 <= i < j < self.pending.len() && #[trigger] self.pending[i] == a
                && #[trigger] self.pending[j] == b
    }

    /// Whether `op`, made in this state, hands the job `id` to a worker.
    pub open spec fn claims(self, op: Op, id: Seq<char>) -> bool {
        op is Dequeue && self.dequeued() is Some && self.dequeued().unwrap().id == id
    }

    /// How many operations of a history pass before the job `id` is first
    /// handed to a worker; the length of the history if it never is.
    pub open spec fn first_claim(self, ops: Seq<Op>, id: Seq<char>) -> int
        decreases ops.len(),
    {
        if ops.len() == 0 {
            0
        } else if self.claims(ops[0], id) {
            0
        } else {
            1 + self.step(ops[0]).first_claim(ops.drop_first(), id)
        }
    }
}

/// Every admissible operation keeps the store consistent.
pub proof fn lemma_step_consistent(s: QueueState, op: Op)
    requires
        s.consistent(),
        s.admits(op),
    ensures
        s.step(op).consistent(),
{
    match op {
        Op::Enqueue(job) => lemma_enqueue_consistent(s, job),
        Op::Dequeue => lemma_dequeue_consistent(s),
        Op::Complete(id, now) => lemma_complete_consistent(s, id, now),
        Op::Fail(id, error) => lemma_fail_consistent(s, id, error),
    }
}

/// Every admissible history keeps the store consistent. In particular, at
/// every point of it, no job has more retries than its bound, a job whose
/// retries have reached the bound has failed, and a failed job is not in the
/// pending list.
pub proof fn lemma_run_consistent(s: QueueState, ops: Seq<Op>)
    requires
        s.consistent(),
        s.admits_all(ops),
    ensures
        s.run(ops).consistent(),
    decreases ops.len(),
{
    if ops.len() > 0 {
        lemma_step_consistent(s, ops[0]);
        lemma_run_consistent(s.step(ops[0]), ops.drop_first());
    }
}

/// In a consistent store the retries of every job are within the bound;
/// a job whose retries have reached the bound has failed; and a failed job
/// is neither pending nor in processing.
pub proof fn lemma_retries_bounded(s: QueueState, id: Seq<char>)
    requires
        s.consistent(),
        s.records.contains_key(id),
    ensures
        s.records[id].retries <= s.records[id].max_retries,
        s.records[id].retries == s.records[id].max_retries ==> s.records[id].status
            == EmailStatus::Failed,
        s.records[id].status == EmailStatus::Failed ==> !s.pending.contains(id)
            && !s.processing.contains(id),
{
    assert(s.records[id].lawful());
    assert(s.pending.contains(id) <==> s.has_status(id, EmailStatus::Pending));
    assert(s.processing.contains(id) <==> s.has_status(id, EmailStatus::Processing));
}

/// Recording a failure of a job with retries left, whatever its status,
/// keeps the retries within the bound, and the job has failed for good
/// exactly when they have reached it.
pub proof fn lemma_failure_within_bound(job: JobView, error: Seq<char>)
    requires
        job.retries < job.max_retries,
    ensures
        job.failed(error).retries == job.retries + 1,
        job.failed(error).retries <= job.max_retries,
        job.failed(error).retries == job.max_retries <==> job.failed(error).status
            == EmailStatus::Failed,
        job.failed(error).retries < job.max_retries <==> job.failed(error).status
            == EmailStatus::Pending,
{
}

/// A failure reported for a claimed job keeps its retries within the bound;
/// the job is queued again exactly when retries are left, and has failed for
/// good otherwise.
pub proof fn lemma_fail_bounded(s: QueueState, id: Seq<char>, error: Seq<char>)
    requires
        s.consistent(),
        s.has_status(id, EmailStatus::Processing),
    ensures
        s.fail(id, error).records[id].retries == s.records[id].retries + 1,
        s.fail(id, error).records[id].retries <= s.records[id].max_retries,
        s.retries_after_fail(id) <==> s.fail(id, error).records[id].retries
            < s.records[id].max_retries,
        s.retries_after_fail(id) ==> s.fail(id, error).has_status(id, EmailStatus::Pending)
            && s.fail(id, error).pending.last() == id,
        !s.retries_after_fail(id) ==> s.fail(id, error).has_status(id, EmailStatus::Failed)
            && !s.fail(id, error).pending.contains(id),
{
    assert(s.records[id].lawful());
    lemma_fail_consistent(s, id, error);
    let t = s.fail(id, error);
    assert(t.pending.contains(id) <==> t.has_status(id, EmailStatus::Pending));
}

/// A job that has reached a terminal status keeps its record through every
/// admissible history, and never enters the pending list or the processing
/// set again.
pub proof fn lemma_terminal_is_final(s: QueueState, ops: Seq<Op>, id: Seq<char>)
    requires
        s.consistent(),
        s.admits_all(ops),
        s.records.contains_key(id),
        s.records[id].status.terminal(),
    ensures
        s.run(ops).records.contains_key(id),
        s.run(ops).records[id] == s.records[id],
        !s.run(ops).pending.contains(id),
        !s.run(ops).processing.contains(id),
    decreases ops.len(),
{
    assert(s.pending.contains(id) <==> s.has_status(id, EmailStatus::Pending));
    assert(s.processing.contains(id) <==> s.has_status(id, EmailStatus::Processing));
    if ops.len() > 0 {
        let op = ops[0];
        let t = s.step(op);
        lemma_step_consistent(s, op);
        assert(t.records.contains_key(id) && t.records[id] == s.records[id]) by {
            match op {
                Op::Dequeue => {
                    if s.pending.len() > 0 {
                        assert(s.pending.contains(s.pending[0]));
                    }
                },
                _ => {},
            }
        }
        lemma_terminal_is_final(t, ops.drop_first(), id);
    }
}

/// Whether two records are of the same job: they agree in everything that
/// is fixed when the job is created.
pub open spec fn same_job(a: JobView, b: JobView) -> bool {
    &&& a.id == b.id
    &&& a.to == b.to
    &&& a.subject == b.subject
    &&& a.template == b.template
    &&& a.data == b.data
    &&& a.created_at == b.created_at
    &&& a.max_retries == b.max_retries
}

/// No admissible operation deletes a record or changes what was fixed when
/// its job was created: the id, the recipient, the subject, the template,
/// the data, the time of creation and the retry bound.
pub proof fn lemma_records_kept(s: QueueState, op: Op, id: Seq<char>)
    requires
        s.admits(op),
        s.records.contains_key(id),
    ensures
        s.step(op).records.contains_key(id),
        same_job(s.step(op).records[id], s.records[id]),
{
}

/// A job that `dequeue` has handed out is in processing, so its outcome may
/// be reported: the worker's `complete` or `fail` for it is admissible.
pub proof fn lemma_claimed_may_report(s: QueueState)
    requires
        s.consistent(),
        s.dequeued() is Some,
    ensures
        s.dequeue().has_status(s.dequeued().unwrap().id, EmailStatus::Processing),
        s.dequeue().admits_report(s.dequeued().unwrap().id),
{
    lemma_dequeue_removes(s);
}

/// `dequeue` hands out the head of the pending list and removes it from the
/// list in the same step: afterwards the id is not pending, so no second
/// `dequeue` can hand it out, and it is in processing.
pub proof fn lemma_dequeue_removes(s: QueueState)
    requires
        s.consistent(),
        s.pending.len() > 0,
    ensures
        s.dequeued() is Some,
        s.dequeued().unwrap().id == s.pending[0],
        s.dequeued().unwrap().status == EmailStatus::Processing,
        !s.dequeue().pending.contains(s.pending[0]),
        s.dequeue().processing.contains(s.pending[0]),
{
    lemma_dequeue_consistent(s);
    let t = s.dequeue();
    let h = s.pending[0];
    assert(s.pending.contains(h));
    assert(s.has_status(h, EmailStatus::Pending));
    assert(t.has_status(h, EmailStatus::Processing));
    assert(t.pending.contains(h) <==> t.has_status(h, EmailStatus::Pending));
}

/// Two calls of `dequeue` in a row never hand out the same job.
pub proof fn lemma_dequeue_twice_distinct(s: QueueState)
    requires
        s.consistent(),
        s.dequeued() is Some,
        s.dequeue().dequeued() is Some,
    ensures
        s.dequeued().unwrap().id != s.dequeue().dequeued().unwrap().id,
{
    lemma_dequeue_removes(s);
    lemma_dequeue_consistent(s);
    lemma_dequeue_removes(s.dequeue());
    assert(s.dequeue().pending.contains(s.dequeue().pending[0]));
}

/// A job enqueued while another is pending stands behind it in the pending
/// list.
pub proof fn lemma_enqueue_behind(s: QueueState, job: JobView, a: Seq<char>)
    requires
        s.pending.contains(a),
    ensures
        s.enqueue(job).precedes(a, job.id),
{
    let t = s.enqueue(job);
    let i = choose|i: int| 0 <= i < s.pending.len() && s.pending[i] == a;
    let j = s.pending.len() as int;
    assert(t.pending[i] == a && t.pending[j] == job.id);
}

/// One admissible operation that claims neither `a` nor `b` leaves `a`
/// before `b` in the pending list; and no operation claims `b` while `a`
/// stands before it.
pub proof fn lemma_order_kept(s: QueueState, op: Op, a: Seq<char>, b: Seq<char>)
    requires
        s.consistent(),
        s.admits(op),
        s.precedes(a, b),
    ensures
        !s.claims(op, b),
        !s.claims(op, a) ==> s.step(op).precedes(a, b),
{
    let (i, j) = choose|i: int, j: int|
        0 <= i < j < s.pending.len() && #[trigger] s.pending[i] == a && #[trigger] s.pending[j]
            == b;
    let h = s.pending[0];
    assert(s.pending.contains(h));
    assert(s.has_status(h, EmailStatus::Pending));
    assert(s.dequeued() is Some && s.dequeued().unwrap().id == h);
    assert(h != b);
    let t = s.step(op);
    if !s.claims(op, a) {
        match op {
            Op::Enqueue(job) => {
                assert(t.pending[i] == a && t.pending[j] == b);
            },
            Op::Dequeue => {
                assert(h != a);
                assert(i >= 1);
                assert(t.pending[i - 1] == a && t.pending[j - 1] == b);
            },
            Op::Complete(id, now) => {
                assert(t.pending[i] == a && t.pending[j] == b);
            },
            Op::Fail(id, error) => {
                assert(t.pending[i] == a && t.pending[j] == b);
            },
        }
    }
}

/// First in, first out: through every admissible history, a job that stands
/// before another in the pending list is handed to a worker no later than
/// the other, and strictly earlier if the other is handed out at all.
pub proof fn lemma_fifo(s: QueueState, ops: Seq<Op>, a: Seq<char>, b: Seq<char>)
    requires
        s.consistent(),
        s.admits_all(ops),
        s.precedes(a, b),
    ensures
        0 <= s.first_claim(ops, a) <= s.first_claim(ops, b) <= ops.len(),
        s.first_claim(ops, b) < ops.len() ==> s.first_claim(ops, a) < s.first_claim(ops, b),
    decreases ops.len(),
{
    if ops.len() > 0 {
        let op = ops[0];
        lemma_order_kept(s, op, a, b);
        lemma_step_consistent(s, op);
        if s.claims(op, a) {
            lemma_first_claim_bounds(s.step(op), ops.drop_first(), b);
        } else {
            lemma_fifo(s.step(op), ops.drop_first(), a, b);
        }
    }
}

proof fn lemma_first_claim_bounds(s: QueueState, ops: Seq<Op>, id: Seq<char>)
    ensures
        0 <= s.first_claim(ops, id) <= ops.len(),
    decreases ops.len(),
{
    if ops.len() > 0 && !s.claims(ops[0], id) {
        lemma_first_claim_bounds(s.step(ops[0]), ops.drop_first(), id);
    }
}

/// In a consistent store the pending list is as long as there are pending
/// jobs, and the processing set as large as there are jobs in processing.
pub proof fn lemma_counts_match(s: QueueState)
    requires
        s.consistent(),
    ensures
        s.pending.len() == s.with_status(EmailStatus::Pending).len(),
        s.processing.len() == s.with_status(EmailStatus::Processing).len(),
{
    s.pending.unique_seq_to_set();
    assert(s.pending.to_set() =~= s.with_status(EmailStatus::Pending)) by {
        assert forall|k: Seq<char>| s.pending.to_set().contains(k) <==> s.with_status(
            EmailStatus::Pending,
        ).contains(k) by {
            assert(s.pending.contains(k) <==> s.has_status(k, EmailStatus::Pending));
        }
    }
    assert(s.processing =~= s.with_status(EmailStatus::Processing)) by {
        assert forall|k: Seq<char>| s.processing.contains(k) <==> s.with_status(
            EmailStatus::Processing,
        ).contains(k) by {
            assert(s.processing.contains(k) <==> s.has_status(k, EmailStatus::Processing));
        }
    }
}

/// Completing a job a second time changes nothing but the delivery time,
/// which becomes that of the second call: the status stays sent, the
/// pending list, the processing set and every other record stay as they
/// are. Two calls at the same time are the same as one.
pub proof fn lemma_complete_twice(s: QueueState, id: Seq<char>, first: Timestamp, second: Timestamp)
    ensures
        s.complete(id, first).complete(id, second) == s.complete(id, second),
        first == second ==> s.complete(id, first).complete(id, second) == s.complete(id, first),
        s.complete(id, first).complete(id, second).pending == s.complete(id, first).pending,
        s.complete(id, first).complete(id, second).processing == s.complete(
            id,
            first,
        ).processing,
        s.records.contains_key(id) ==> s.complete(id, first).complete(id, second).records
            == s.complete(id, first).records.insert(
            id,
            JobView { sent_at: Some(second), ..s.complete(id, first).records[id] },
        ),
        s.records.contains_key(id) ==> s.complete(id, first).complete(
            id,
            second,
        ).records[id].status == EmailStatus::Sent,
{
    let once = s.complete(id, first);
    let twice = once.complete(id, second);
    assert(twice =~= s.complete(id, second));
    if s.records.contains_key(id) {
        assert(twice.records =~= once.records.insert(
            id,
            JobView { sent_at: Some(second), ..once.records[id] },
        ));
    }
}

// ----- operations that are cut short -----

/// The first `n` writes of a plan; all of them if there are no more.
pub open spec fn first_writes(plan: Seq<Write>, n: nat) -> Seq<Write> {
    if n < plan.len() {
        plan.take(n as int)
    } else {
        plan
    }
}

impl QueueState {
    /// What is left of the lifecycle invariant when operations may have been
    /// cut short between two of their writes: an id in the pending list is
    /// there once and its job is pending; an id in the processing set has a
    /// job that is processing or was just sent; and every record is lawful
    /// and stored under its id. The converse may fail: a job can be pending
    /// without being queued, or processing without being in the set.
    pub open spec fn sound(self) -> bool {
        &&& self.keyed()
        &&& self.pending.no_duplicates()
        &&& forall|id: Seq<char>| #[trigger]
            self.pending.contains(id) ==> self.has_status(id, EmailStatus::Pending)
        &&& forall|id: Seq<char>| #[trigger]
            self.processing.contains(id) ==> self.has_status(id, EmailStatus::Processing)
                || self.has_status(id, EmailStatus::Sent)
        &&& forall|id: Seq<char>| #[trigger]
            self.records.contains_key(id) ==> self.records[id].lawful()
    }

    /// The state after `op` was cut short after `n` of its steps. The steps
    /// of `dequeue` are the pop and then the writes of its plan; the steps
    /// of every other operation are the writes of its plan.
    pub open spec fn cut_short(self, op: Op, n: nat) -> QueueState {
        match op {
            Op::Enqueue(job) => self.apply_all(first_writes(enqueue_writes(job), n)),
            Op::Dequeue => if n == 0 || self.pending.len() == 0 {
                self
            } else {
                self.pop_pending().apply_all(
                    first_writes(claim_writes(self.record(self.pending[0])), (n - 1) as nat),
                )
            },
            Op::Complete(id, now) => self.apply_all(
                first_writes(complete_writes(self.record(id), now), n),
            ),
            Op::Fail(id, error) => self.apply_all(first_writes(fail_writes(self.record(id), error), n)),
        }
    }
}

/// A consistent store is sound.
pub proof fn lemma_consistent_is_sound(s: QueueState)
    requires
        s.consistent(),
    ensures
        s.sound(),
{
    assert forall|id: Seq<char>| #[trigger] s.pending.contains(id) implies s.has_status(
        id,
        EmailStatus::Pending,
    ) by {}
    assert forall|id: Seq<char>| #[trigger] s.processing.contains(id) implies s.has_status(
        id,
        EmailStatus::Processing,
    ) || s.has_status(id, EmailStatus::Sent) by {}
}

proof fn lemma_first_writes(s: QueueState, plan: Seq<Write>, n: nat)
    requires
        plan.len() <= 3,
    ensures
        n == 0 || plan.len() == 0 ==> s.apply_all(first_writes(plan, n)) == s,
        n == 1 && plan.len() >= 1 ==> s.apply_all(first_writes(plan, n)) == s.apply(plan[0]),
        (n == 2 && plan.len() >= 2) || (n >= 2 && plan.len() == 2) ==> s.apply_all(
            first_writes(plan, n),
        ) == s.apply(plan[0]).apply(plan[1]),
        n >= 3 && plan.len() == 3 ==> s.apply_all(first_writes(plan, n)) == s.apply(
            plan[0],
        ).apply(plan[1]).apply(plan[2]),
        n >= 1 && plan.len() == 1 ==> s.apply_all(first_writes(plan, n)) == s.apply(plan[0]),
{
    let ws = first_writes(plan, n);
    if ws.len() >= 1 {
        let one = ws.take(1);
        assert(one.drop_last() =~= Seq::<Write>::empty());
        assert(s.apply_all(one.drop_last()) == s);
        assert(s.apply_all(one) == s.apply(ws[0]));
        if ws.len() >= 2 {
            let two = ws.take(2);
            assert(two.drop_last() =~= one);
            assert(s.apply_all(two) == s.apply(ws[0]).apply(ws[1]));
            if ws.len() >= 3 {
                assert(ws.take(3) =~= ws);
                assert(ws.drop_last() =~= two);
            } else {
                assert(two =~= ws);
            }
        } else {
            assert(one =~= ws);
        }
    } else {
        assert(ws =~= Seq::<Write>::empty());
    }
}

/// An admissible operation that is cut short, after any number of its
/// steps, leaves a sound store sound. So whatever was interrupted before,
/// `dequeue` hands out only pending jobs, and no id twice.
pub proof fn lemma_cut_short_sound(s: QueueState, op: Op, n: nat)
    requires
        s.sound(),
        s.admits(op),
    ensures
        s.cut_short(op, n).sound(),
{
    let t = s.cut_short(op, n);
    match op {
        Op::Enqueue(job) => {
            lemma_first_writes(s, enqueue_writes(job), n);
            assert(!s.pending.contains(job.id));
            if n >= 2 {
                vstd::seq_lib::lemma_no_dup_in_concat(s.pending, seq![job.id]);
                assert(seq![job.id].no_duplicates());
                assert(s.pending + seq![job.id] =~= s.pending.push(job.id));
            }
            assert forall|id: Seq<char>| #[trigger] t.pending.contains(id) implies t.has_status(
                id,
                EmailStatus::Pending,
            ) by {
                let i = choose|i: int| 0 <= i < t.pending.len() && t.pending[i] == id;
                if i < s.pending.len() {
                    assert(s.pending[i] == id);
                    assert(s.pending.contains(id));
                }
            }
            assert forall|id: Seq<char>| #[trigger] t.processing.contains(id) implies t.has_status(
                id,
                EmailStatus::Processing,
            ) || t.has_status(id, EmailStatus::Sent) by {
                assert(s.processing.contains(id));
            }
        },
        Op::Dequeue => {
            if n > 0 && s.pending.len() > 0 {
                let h = s.pending[0];
                let p = s.pop_pending();
                assert(s.pending.contains(h));
                assert(s.has_status(h, EmailStatus::Pending));
                lemma_first_writes(p, claim_writes(s.record(h)), (n - 1) as nat);
                assert(p.pending.no_duplicates());
                assert(!s.processing.contains(h)) by {
                    if s.processing.contains(h) {
                        assert(s.has_status(h, EmailStatus::Processing) || s.has_status(
                            h,
                            EmailStatus::Sent,
                        ));
                    }
                }
                assert forall|id: Seq<char>| #[trigger] t.pending.contains(id) implies t.has_status(
                    id,
                    EmailStatus::Pending,
                ) by {
                    let i = choose|i: int| 0 <= i < t.pending.len() && t.pending[i] == id;
                    assert(s.pending[i + 1] == id);
                    assert(s.pending.contains(id));
                    assert(id != h);
                }
                assert forall|id: Seq<char>| #[trigger]
                    t.processing.contains(id) implies t.has_status(id, EmailStatus::Processing)
                    || t.has_status(id, EmailStatus::Sent) by {
                    if id != h {
                        assert(s.processing.contains(id));
                    }
                }
            }
        },
        Op::Complete(id, now) => {
            lemma_first_writes(s, complete_writes(s.record(id), now), n);
            if s.records.contains_key(id) {
                assert(s.records[id].lawful());
                assert(!s.pending.contains(id)) by {
                    if s.pending.contains(id) {
                        assert(s.has_status(id, EmailStatus::Pending));
                    }
                }
                assert forall|k: Seq<char>| #[trigger] t.pending.contains(k) implies t.has_status(
                    k,
                    EmailStatus::Pending,
                ) by {
                    assert(s.pending.contains(k));
                }
                assert forall|k: Seq<char>| #[trigger]
                    t.processing.contains(k) implies t.has_status(k, EmailStatus::Processing)
                    || t.has_status(k, EmailStatus::Sent) by {
                    if k != id {
                        assert(s.processing.contains(k));
                    }
                }
            }
        },
        Op::Fail(id, error) => {
            lemma_first_writes(s, fail_writes(s.record(id), error), n);
            if s.records.contains_key(id) {
                assert(s.records[id].lawful());
                assert(!s.pending.contains(id)) by {
                    if s.pending.contains(id) {
                        assert(s.has_status(id, EmailStatus::Pending));
                    }
                }
                if n >= 3 && s.records[id].will_retry() {
                    vstd::seq_lib::lemma_no_dup_in_concat(s.pending, seq![id]);
                    assert(seq![id].no_duplicates());
                    assert(s.pending + seq![id] =~= s.pending.push(id));
                }
                assert forall|k: Seq<char>| #[trigger] t.pending.contains(k) implies t.has_status(
                    k,
                    EmailStatus::Pending,
                ) by {
                    let i = choose|i: int| 0 <= i < t.pending.len() && t.pending[i] == k;
                    if i < s.pending.len() {
                        assert(s.pending[i] == k);
                        assert(s.pending.contains(k));
                    }
                }
                assert forall|k: Seq<char>| #[trigger]
                    t.processing.contains(k) implies t.has_status(k, EmailStatus::Processing)
                    || t.has_status(k, EmailStatus::Sent) by {
                    if k != id {
                        assert(s.processing.contains(k));
                    }
                }
            }
        },
    }
}

/// An operation that is not cut short is the operation: after three steps
/// every plan is done.
pub proof fn lemma_cut_short_whole(s: QueueState, op: Op, n: nat)
    requires
        s.keyed(),
        n >= 3,
    ensures
        s.cut_short(op, n) == s.step(op),
{
    match op {
        Op::Enqueue(job) => {
            lemma_first_writes(s, enqueue_writes(job), n);
        },
        Op::Dequeue => {
            if s.pending.len() > 0 {
                lemma_first_writes(
                    s.pop_pending(),
                    claim_writes(s.record(s.pending[0])),
                    (n - 1) as nat,
                );
            }
        },
        Op::Complete(id, now) => {
            lemma_first_writes(s, complete_writes(s.record(id), now), n);
        },
        Op::Fail(id, error) => {
            lemma_first_writes(s, fail_writes(s.record(id), error), n);
        },
    }
}

} // verus!
