//! The data the service works on: jobs, their status, and the request and
//! response shapes of the submit/query interface.

use vstd::prelude::*;

verus! {

/// A point in time: seconds since the Unix epoch (UTC) and the nanoseconds
/// within that second.
#[derive(Clone, Copy, Debug, PartialEq, Eq, Structural)]
pub struct Timestamp {
    pub secs: i64,
    pub nanos: u32,
}

/// Where a job stands in its delivery lifecycle.
#[derive(Clone, Copy, Debug, PartialEq, Eq, Structural)]
pub enum EmailStatus {
    Pending,
    Processing,
    Sent,
    Failed,
}

impl EmailStatus {
    /// `Sent` and `Failed` are terminal: no transition leaves them.
    pub open spec fn terminal(self) -> bool {
        self == EmailStatus::Sent || self == EmailStatus::Failed
    }
}

/// The closed set of message kinds.
#[derive(Clone, Copy, Debug, PartialEq, Eq, Structural)]
pub enum EmailTemplate {
    Otp,
    Otp2FA,
    Welcome,
    PasswordReset,
    LicenseCreated,
    Custom,
}

/// The number of delivery attempts every job is given.
pub const MAX_RETRIES: u32 = 3;

/// Email job in the queue.
#[derive(Debug)]
pub struct EmailJob {
    pub id: String,
    pub to: String,
    pub subject: String,
    pub template: EmailTemplate,
    pub data: serde_json::Value,
    pub status: EmailStatus,
    pub created_at: Timestamp,
    pub sent_at: Option<Timestamp>,
    pub retries: u32,
    pub max_retries: u32,
    pub error: Option<String>,
}

/// The mathematical value of an [`EmailJob`]: its strings as sequences of
/// characters, everything else as it is.
#[verifier::ext_equal]
pub struct JobView {
    pub id: Seq<char>,
    pub to: Seq<char>,
    pub subject: Seq<char>,
    pub template: EmailTemplate,
    pub data: serde_json::Value,
    pub status: EmailStatus,
    pub created_at: Timestamp,
    pub sent_at: Option<Timestamp>,
    pub retries: u32,
    pub max_retries: u32,
    pub error: Option<Seq<char>>,
}

/// The characters of an optional string.
pub open spec fn text_of(s: Option<String>) -> Option<Seq<char>> {
    match s {
        Some(t) => Some(t@),
        None => None,
    }
}

/// The value of an optional job.
pub open spec fn job_of(j: Option<EmailJob>) -> Option<JobView> {
    match j {
        Some(job) => Some(job@),
        None => None,
    }
}

impl View for EmailJob {
    type V = JobView;

    open spec fn view(&self) -> JobView {
        JobView {
            id: self.id@,
            to: self.to@,
            subject: self.subject@,
            template: self.template,
            data: self.data,
            status: self.status,
            created_at: self.created_at,
            sent_at: self.sent_at,
            retries: self.retries,
            max_retries: self.max_retries,
            error: text_of(self.error),
        }
    }
}

impl JobView {
    /// A job as `enqueue` creates it: pending, never tried, with the fixed
    /// retry bound.
    pub open spec fn fresh(
        id: Seq<char>,
        to: Seq<char>,
        subject: Seq<char>,
        template: EmailTemplate,
        data: serde_json::Value,
        now: Timestamp,
    ) -> JobView {
        JobView {
            id,
            to,
            subject,
            template,
            data,
            status: EmailStatus::Pending,
            created_at: now,
            sent_at: None,
            retries: 0,
            max_retries: MAX_RETRIES,
            error: None,
        }
    }

    /// The job once a worker has claimed it.
    pub open spec fn claimed(self) -> JobView {
        JobView { status: EmailStatus::Processing, ..self }
    }

    /// The job once its message was delivered at `now`.
    pub open spec fn sent(self, now: Timestamp) -> JobView {
        JobView { status: EmailStatus::Sent, sent_at: Some(now), ..self }
    }

    /// The retry count after one more failure. It stops at the largest
    /// number the field can hold, which no job under the retry policy comes
    /// near.
    pub open spec fn next_retries(self) -> u32 {
        if self.retries < u32::MAX {
            (self.retries + 1) as u32
        } else {
            self.retries
        }
    }

    /// Whether the job gets another attempt after one more failure.
    pub open spec fn will_retry(self) -> bool {
        self.next_retries() < self.max_retries
    }

    /// The job after a delivery attempt failed with `error`: back to pending
    /// while attempts are left, terminally failed otherwise.
    pub open spec fn failed(self, error: Seq<char>) -> JobView {
        JobView {
            retries: self.next_retries(),
            error: Some(error),
            status: if self.will_retry() {
                EmailStatus::Pending
            } else {
                EmailStatus::Failed
            },
            ..self
        }
    }

    /// What the lifecycle guarantees of every job record: the retry count
    /// stays within its bound and reaches it exactly when the job has
    /// terminally failed; a delivery time is recorded exactly for sent jobs;
    /// an error is recorded exactly once an attempt has failed.
    pub open spec fn lawful(self) -> bool {
        &&& self.retries <= self.max_retries
        &&& (self.retries == self.max_retries <==> self.status == EmailStatus::Failed)
        &&& (self.sent_at is Some <==> self.status == EmailStatus::Sent)
        &&& (self.error is Some <==> self.retries > 0)
    }
}

impl Clone for EmailJob {
    fn clone(&self) -> (r: Self)
        ensures
            r@ == self@,
    {
        let error = match &self.error {
            Some(e) => Some(e.clone()),
            None => None,
        };
        EmailJob {
            id: self.id.clone(),
            to: self.to.clone(),
            subject: self.subject.clone(),
            template: self.template,
            data: self.data.clone(),
            status: self.status,
            created_at: self.created_at,
            sent_at: self.sent_at,
            retries: self.retries,
            max_retries: self.max_retries,
            error,
        }
    }
}

impl EmailJob {
    /// A new pending job.
    pub fn new(
        id: String,
        to: String,
        subject: String,
        template: EmailTemplate,
        data: serde_json::Value,
        now: Timestamp,
    ) -> (job: EmailJob)
        ensures
            job@ == JobView::fresh(id@, to@, subject@, template, data, now),
    {
        EmailJob {
            id,
            to,
            subject,
            template,
            data,
            status: EmailStatus::Pending,
            created_at: now,
            sent_at: None,
            retries: 0,
            max_retries: MAX_RETRIES,
            error: None,
        }
    }

    /// Pending to processing: a worker has claimed the job.
    pub fn mark_processing(&mut self)
        ensures
            final(self)@ == old(self)@.claimed(),
    {
        self.status = EmailStatus::Processing;
    }

    /// Records the delivery at `now`.
    pub fn mark_sent(&mut self, now: Timestamp)
        ensures
            final(self)@ == old(self)@.sent(now),
    {
        self.status = EmailStatus::Sent;
        self.sent_at = Some(now);
    }

    /// Records one failed attempt and decides between another attempt
    /// (`true`, the job is pending again) and giving up (`false`, the job has
    /// terminally failed).
    pub fn record_failure(&mut self, error: &str) -> (will_retry: bool)
        ensures
            final(self)@ == old(self)@.failed(error@),
            will_retry == old(self)@.will_retry(),
    {
        if self.retries < u32::MAX {
            self.retries = self.retries + 1;
        }
        self.error = Some(error.to_owned());
        if self.retries < self.max_retries {
            self.status = EmailStatus::Pending;
            true
        } else {
            self.status = EmailStatus::Failed;
            false
        }
    }
}

/// Request to send an OTP email (signup).
#[derive(Debug)]
pub struct SendOtpRequest {
    pub email: String,
    pub otp: String,
}

/// Request to send a 2FA OTP email.
#[derive(Debug)]
pub struct SendOtp2FARequest {
    pub email: String,
    pub otp: String,
}

/// Request to send a generic email.
#[derive(Debug)]
pub struct SendEmailRequest {
    pub to: String,
    pub subject: String,
    pub template: EmailTemplate,
    pub data: serde_json::Value,
}

/// Response for email operations.
#[derive(Debug)]
pub struct EmailResponse {
    pub success: bool,
    pub job_id: Option<String>,
    pub message: String,
}

/// Queue stats response.
#[derive(Clone, Copy, Debug, PartialEq, Eq, Structural)]
pub struct QueueStats {
    pub pending: u64,
    pub processing: u64,
    pub sent: u64,
    pub failed: u64,
}

} // verus!
