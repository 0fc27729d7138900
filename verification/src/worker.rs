//! The worker: the consumer that claims a job on each tick, renders it,
//! hands it to the mail transport and reports the outcome to the queue.
//!
//! The worker is a state machine. Whoever runs it waits for the ticks, talks
//! to the queue and to the mail transport, and tells the machine what
//! happened; the machine decides what to do next.

use vstd::prelude::*;

use crate::laws::lemma_claimed_may_report;
use crate::models::{job_of, EmailJob, EmailStatus, JobView, Timestamp};
use crate::queue::EmailQueue;
use crate::state::{
    lemma_complete_consistent, lemma_dequeue_consistent, lemma_fail_consistent, QueueState,
};
use crate::templates::{outcome, rendering, RenderFailure, TemplateEngine};

verus! {

/// What the worker is in the middle of.
#[derive(Debug)]
pub enum WorkerState {
    /// Nothing: it waits for the next tick.
    Idle,
    /// It has asked the queue for a job.
    Claiming,
    /// It has handed the message of the job with this id to the mail
    /// transport.
    Sending(String),
}

/// What happened since the worker's last decision.
#[derive(Debug)]
pub enum WorkerEvent {
    /// The polling interval has passed.
    Tick,
    /// The queue answered `Dequeue`, with a job or with none.
    Dequeued(Option<EmailJob>),
    /// The queue could not be asked.
    DequeueFailed,
    /// The mail transport confirmed the delivery.
    Delivered,
    /// The mail transport reported an error, described by the text.
    DeliveryFailed(String),
}

/// What the worker wants done next. `Dequeue` is answered with `Dequeued`
/// or `DequeueFailed`, `Send` with `Delivered` or `DeliveryFailed`; after
/// every other action the next event is the next `Tick`.
#[derive(Debug)]
pub enum WorkerAction {
    /// Wait for the next tick.
    Wait,
    /// Ask the queue for the next job.
    Dequeue,
    /// Hand a message to the mail transport.
    Send { to: String, subject: String, html: String },
    /// Report the delivery of a job to the queue.
    Complete { job_id: String },
    /// Report the failure of a job to the queue.
    Fail { job_id: String, error: String },
}

/// The value of a [`WorkerState`].
pub enum StateView {
    Idle,
    Claiming,
    Sending(Seq<char>),
}

/// The value of a [`WorkerEvent`].
pub enum EventView {
    Tick,
    Dequeued(Option<JobView>),
    DequeueFailed,
    Delivered,
    DeliveryFailed(Seq<char>),
}

/// The value of a [`WorkerAction`].
pub enum ActionView {
    Wait,
    Dequeue,
    Send { to: Seq<char>, subject: Seq<char>, html: Seq<char> },
    Complete { job_id: Seq<char> },
    Fail { job_id: Seq<char>, error: Seq<char> },
}

impl View for WorkerState {
    type V = StateView;

    open spec fn view(&self) -> StateView {
        match self {
            WorkerState::Idle => StateView::Idle,
            WorkerState::Claiming => StateView::Claiming,
            WorkerState::Sending(id) => StateView::Sending(id@),
        }
    }
}

impl View for WorkerEvent {
    type V = EventView;

    open spec fn view(&self) -> EventView {
        match self {
            WorkerEvent::Tick => EventView::Tick,
            WorkerEvent::Dequeued(job) => EventView::Dequeued(job_of(*job)),
            WorkerEvent::DequeueFailed => EventView::DequeueFailed,
            WorkerEvent::Delivered => EventView::Delivered,
            WorkerEvent::DeliveryFailed(error) => EventView::DeliveryFailed(error@),
        }
    }
}

impl View for WorkerAction {
    type V = ActionView;

    open spec fn view(&self) -> ActionView {
        match self {
            WorkerAction::Wait => ActionView::Wait,
            WorkerAction::Dequeue => ActionView::Dequeue,
            WorkerAction::Send { to, subject, html } => ActionView::Send {
                to: to@,
                subject: subject@,
                html: html@,
            },
            WorkerAction::Complete { job_id } => ActionView::Complete { job_id: job_id@ },
            WorkerAction::Fail { job_id, error } => ActionView::Fail {
                job_id: job_id@,
                error: error@,
            },
        }
    }
}

/// What the worker does with a claimed job once it was rendered: a rendered
/// message goes to the mail transport; a rendering failure is reported as
/// the job's failure, and the job is not sent.
pub open spec fn after_render(job: JobView, body: Result<Seq<char>, RenderFailure>) -> (
    StateView,
    ActionView,
) {
    match body {
        Ok(html) => (
            StateView::Sending(job.id),
            ActionView::Send { to: job.to, subject: job.subject, html },
        ),
        Err(e) => (StateView::Idle, ActionView::Fail { job_id: job.id, error: e.text() }),
    }
}

/// What the worker does on every event but the arrival of a claimed job. A
/// tick makes the idle worker ask for a job; no job, or no answer, sends it
/// back to waiting; the transport's answer is reported to the queue as the
/// job's delivery or failure. An event that the state does not call for is
/// ignored.
pub open spec fn reaction(state: StateView, event: EventView) -> (StateView, ActionView) {
    match (state, event) {
        (StateView::Idle, EventView::Tick) => (StateView::Claiming, ActionView::Dequeue),
        (StateView::Claiming, EventView::Dequeued(None)) => (StateView::Idle, ActionView::Wait),
        (StateView::Claiming, EventView::DequeueFailed) => (StateView::Idle, ActionView::Wait),
        (StateView::Sending(id), EventView::Delivered) => (
            StateView::Idle,
            ActionView::Complete { job_id: id },
        ),
        (StateView::Sending(id), EventView::DeliveryFailed(error)) => (
            StateView::Idle,
            ActionView::Fail { job_id: id, error },
        ),
        (state, _) => (state, ActionView::Wait),
    }
}

/// The worker's next state and action, when the year is `year`.
pub open spec fn transition(
    state: StateView,
    event: EventView,
    registry: handlebars::Handlebars<'static>,
    year: Seq<char>,
) -> (StateView, ActionView) {
    match (state, event) {
        (StateView::Claiming, EventView::Dequeued(Some(job))) => after_render(
            job,
            rendering(registry, job.template, job.data, year),
        ),
        _ => reaction(state, event),
    }
}

/// The value of a state and an action.
pub open spec fn decision(next: (WorkerState, WorkerAction)) -> (StateView, ActionView) {
    (next.0@, next.1@)
}

/// What the worker does with a claimed job once it was rendered.
pub fn on_rendered(job: EmailJob, body: Result<String, RenderFailure>) -> (next: (
    WorkerState,
    WorkerAction,
))
    ensures
        decision(next) == after_render(job@, outcome(body)),
{
    match body {
        Ok(html) => (
            WorkerState::Sending(job.id),
            WorkerAction::Send { to: job.to, subject: job.subject, html },
        ),
        Err(e) => (WorkerState::Idle, WorkerAction::Fail { job_id: job.id, error: e.message() }),
    }
}

/// What the worker does on an event other than the arrival of a claimed job.
fn react(state: WorkerState, event: WorkerEvent) -> (next: (WorkerState, WorkerAction))
    requires
        !(state@ is Claiming && event@ matches EventView::Dequeued(Some(_))),
    ensures
        decision(next) == reaction(state@, event@),
{
    match (state, event) {
        (WorkerState::Idle, WorkerEvent::Tick) => (WorkerState::Claiming, WorkerAction::Dequeue),
        (WorkerState::Claiming, WorkerEvent::Dequeued(None)) => (
            WorkerState::Idle,
            WorkerAction::Wait,
        ),
        (WorkerState::Claiming, WorkerEvent::DequeueFailed) => (
            WorkerState::Idle,
            WorkerAction::Wait,
        ),
        (WorkerState::Sending(id), WorkerEvent::Delivered) => (
            WorkerState::Idle,
            WorkerAction::Complete { job_id: id },
        ),
        (WorkerState::Sending(id), WorkerEvent::DeliveryFailed(error)) => (
            WorkerState::Idle,
            WorkerAction::Fail { job_id: id, error },
        ),
        (state, _) => (state, WorkerAction::Wait),
    }
}

/// The worker's next state and action.
///
/// A claimed job is rendered in the current year, which is the clock's, so
/// the contract says what holds whatever the year is; [`step_in_year`] is
/// the same function with the year given.
pub fn step(state: WorkerState, event: WorkerEvent, engine: &TemplateEngine) -> (next: (
    WorkerState,
    WorkerAction,
))
    ensures
        exists|year: Seq<char>|
            decision(next) == #[trigger] transition(state@, event@, engine.registry(), year),
{
    match (state, event) {
        (WorkerState::Claiming, WorkerEvent::Dequeued(Some(job))) => {
            let body = engine.render(&job.template, &job.data);
            let ghost year = choose|year: Seq<char>|
                outcome(body) == #[trigger] rendering(
                    engine.registry(),
                    job.template,
                    job.data,
                    year,
                );
            let next = on_rendered(job, body);
            assert(decision(next) == transition(state@, event@, engine.registry(), year));
            next
        },
        (state, event) => {
            let next = react(state, event);
            assert(decision(next) == transition(
                state@,
                event@,
                engine.registry(),
                Seq::<char>::empty(),
            ));
            next
        },
    }
}

/// The worker's next state and action, when the year is `year`.
pub fn step_in_year(
    state: WorkerState,
    event: WorkerEvent,
    engine: &TemplateEngine,
    year: &str,
) -> (next: (WorkerState, WorkerAction))
    ensures
        decision(next) == transition(state@, event@, engine.registry(), year@),
{
    match (state, event) {
        (WorkerState::Claiming, WorkerEvent::Dequeued(Some(job))) => {
            let body = engine.render_in_year(&job.template, &job.data, year);
            on_rendered(job, body)
        },
        (state, event) => react(state, event),
    }
}

/// What carrying out an action leaves of a queue `before`, and the event it
/// answers with, when the time is `now`. `Dequeue`, `Complete` and `Fail`
/// are the queue's operations; the other actions are not the queue's to
/// carry out, and leave it as it is.
pub open spec fn carried_out(before: QueueState, action: ActionView, now: Timestamp) -> (
    QueueState,
    Option<EventView>,
) {
    match action {
        ActionView::Dequeue => (before.dequeue(), Some(EventView::Dequeued(before.dequeued()))),
        ActionView::Complete { job_id } => (before.complete(job_id, now), None),
        ActionView::Fail { job_id, error } => (before.fail(job_id, error), None),
        _ => (before, None),
    }
}

/// The value of an optional event.
pub open spec fn event_of(event: Option<WorkerEvent>) -> Option<EventView> {
    match event {
        Some(e) => Some(e@),
        None => None,
    }
}

/// Carries out on `queue` the actions that are the queue's, and returns the
/// event that answers the action, if one does.
///
/// A delivery is recorded at the current time, which is the clock's, so the
/// contract says what holds whatever the time is.
pub fn carry_out(queue: &mut EmailQueue, action: &WorkerAction) -> (event: Option<WorkerEvent>)
    ensures
        exists|now: Timestamp|
            (final(queue)@, event_of(event)) == #[trigger] carried_out(old(queue)@, action@, now),
{
    let ghost before = queue@;
    match action {
        WorkerAction::Dequeue => {
            let job = queue.dequeue();
            let event = Some(WorkerEvent::Dequeued(job));
            assert((queue@, event_of(event)) == carried_out(
                before,
                action@,
                Timestamp { secs: 0, nanos: 0 },
            ));
            event
        },
        WorkerAction::Complete { job_id } => {
            queue.complete(job_id.as_str());
            let ghost now = choose|now: Timestamp|
                queue@ == #[trigger] before.complete(job_id@, now);
            assert((queue@, event_of(None)) == carried_out(before, action@, now));
            None
        },
        WorkerAction::Fail { job_id, error } => {
            queue.fail(job_id.as_str(), error.as_str());
            assert((queue@, event_of(None)) == carried_out(
                before,
                action@,
                Timestamp { secs: 0, nanos: 0 },
            ));
            None
        },
        _ => {
            assert((queue@, event_of(None)) == carried_out(
                before,
                action@,
                Timestamp { secs: 0, nanos: 0 },
            ));
            None
        },
    }
}

/// What one whole tick of the worker leaves of a queue `before`: the worker
/// asks for a job; a job it gets is rendered; a rendered job is handed to
/// the mail transport, which answers with `answer` (`Delivered` or
/// `DeliveryFailed`); and the outcome is reported to the queue.
pub open spec fn tick(
    before: QueueState,
    registry: handlebars::Handlebars<'static>,
    year: Seq<char>,
    answer: EventView,
    now: Timestamp,
) -> QueueState {
    let asked = transition(StateView::Idle, EventView::Tick, registry, year);
    let claimed = carried_out(before, asked.1, now);
    let rendered = transition(asked.0, claimed.1.unwrap(), registry, year);
    match rendered.1 {
        ActionView::Send { .. } => {
            let reported = transition(rendered.0, answer, registry, year);
            carried_out(claimed.0, reported.1, now).0
        },
        _ => carried_out(claimed.0, rendered.1, now).0,
    }
}

/// A whole tick keeps the queue consistent and leaves nothing behind in
/// processing: the job it claimed, the head of the pending list, is sent if
/// it was rendered and delivered, and has otherwise failed once more, which
/// makes it pending again or failed for good. With nothing pending the tick
/// changes nothing.
pub proof fn lemma_tick(
    before: QueueState,
    registry: handlebars::Handlebars<'static>,
    year: Seq<char>,
    answer: EventView,
    now: Timestamp,
)
    requires
        before.consistent(),
        answer is Delivered || answer is DeliveryFailed,
    ensures
        tick(before, registry, year, answer, now).consistent(),
        tick(before, registry, year, answer, now).processing == before.processing,
        before.pending.len() == 0 ==> tick(before, registry, year, answer, now) == before,
        before.pending.len() > 0 ==> {
            let job = before.records[before.pending[0]];
            let after = tick(before, registry, year, answer, now).records[before.pending[0]];
            if rendering(registry, job.template, job.data, year) is Ok && answer is Delivered {
                after == job.claimed().sent(now)
            } else {
                after.status != EmailStatus::Processing && after.status != EmailStatus::Sent
                    && after.retries == job.retries + 1
            }
        },
{
    lemma_dequeue_consistent(before);
    if before.pending.len() > 0 {
        let id = before.pending[0];
        assert(before.pending.contains(id));
        assert(before.has_status(id, EmailStatus::Pending));
        lemma_claimed_may_report(before);
        let claimed = before.dequeue();
        let job = before.dequeued().unwrap();
        assert(job.id == id);
        assert(claimed.records[id] == job);
        assert(!before.processing.contains(id)) by {
            assert(!before.has_status(id, EmailStatus::Processing));
        }
        assert(before.records[id].lawful());
        lemma_complete_consistent(claimed, id, now);
        assert(claimed.complete(id, now).processing =~= before.processing);
        match answer {
            EventView::DeliveryFailed(error) => {
                lemma_fail_consistent(claimed, id, error);
                assert(claimed.fail(id, error).processing =~= before.processing);
            },
            _ => {},
        }
        match rendering(registry, job.template, job.data, year) {
            Ok(html) => {},
            Err(e) => {
                lemma_fail_consistent(claimed, id, e.text());
                assert(claimed.fail(id, e.text()).processing =~= before.processing);
            },
        }
    }
}

} // verus!
