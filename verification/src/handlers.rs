//! The submit/query interface: what the API layer calls to queue a message
//! and to read statistics and job records, and the answers it gives.

use vstd::prelude::*;
use vstd::string::StringExecFns;

use crate::deps::{json_single_member, json_with_string_member, single_member, with_string_member};
use crate::models::{
    job_of, text_of, EmailJob, EmailResponse, EmailTemplate, JobView, QueueStats,
    SendEmailRequest, SendOtp2FARequest, SendOtpRequest, Timestamp,
};
use crate::queue::EmailQueue;
use crate::smtp::SmtpClient;
use crate::templates::TemplateEngine;

verus! {

/// What the handlers work on.
pub struct AppState {
    pub queue: EmailQueue,
    pub smtp: SmtpClient,
    pub templates: TemplateEngine,
}

/// The answer of the health check.
#[derive(Debug)]
pub struct Health {
    pub status: String,
    pub service: String,
}

/// The data of a one-time-password message: the members `otp` and `email`.
pub open spec fn otp_data(otp: Seq<char>, email: Seq<char>) -> serde_json::Value {
    with_string_member(single_member("otp"@, otp), "email"@, email)
}

/// The answer to a request that was queued under `job_id`.
pub open spec fn queued_response(response: EmailResponse, job_id: Seq<char>, message: Seq<char>)
    -> bool {
    &&& response.success
    &&& text_of(response.job_id) == Some(job_id)
    &&& response.message@ == message
}

/// The state of the queue after a request was queued under `job_id`, with
/// the given recipient, subject, template and data, at some time.
pub open spec fn queued_as(
    before: crate::state::QueueState,
    after: crate::state::QueueState,
    job_id: Seq<char>,
    to: Seq<char>,
    subject: Seq<char>,
    template: EmailTemplate,
    data: serde_json::Value,
) -> bool {
    exists|now: Timestamp|
        after == before.enqueue(#[trigger] JobView::fresh(job_id, to, subject, template, data, now))
}

impl EmailResponse {
    /// The answer to a request that was queued under `job_id`.
    pub fn queued(job_id: String, message: &str) -> (response: EmailResponse)
        ensures
            queued_response(response, job_id@, message@),
    {
        EmailResponse { success: true, job_id: Some(job_id), message: message.to_owned() }
    }

    /// The answer to a request that could not be queued, for the reason
    /// `error`.
    pub fn rejected(error: &str) -> (response: EmailResponse)
        ensures
            !response.success,
            response.job_id is None,
            response.message@ == "Failed to queue email: "@ + error@,
    {
        let mut message = "Failed to queue email: ".to_owned();
        message.append(error);
        EmailResponse { success: false, job_id: None, message }
    }
}

/// Health check.
pub fn health() -> (answer: Health)
    ensures
        answer.status@ == "healthy"@,
        answer.service@ == "mailer"@,
{
    Health { status: "healthy".to_owned(), service: "mailer".to_owned() }
}

/// The subject of the one-time-password message of a signup.
pub const OTP_SUBJECT: &'static str = "Your KillCode Verification Code";

/// The subject of the one-time-password message of a login.
pub const OTP_2FA_SUBJECT: &'static str = "KillCode Login Verification";

/// The answer to a signup code that was queued.
pub const OTP_QUEUED: &'static str = "OTP email queued successfully";

/// The answer to a login code that was queued.
pub const OTP_2FA_QUEUED: &'static str = "2FA OTP email queued successfully";

/// The answer to any other message that was queued.
pub const EMAIL_QUEUED: &'static str = "Email queued successfully";

/// The message that carries the one-time password of a signup.
pub fn otp_email(req: &SendOtpRequest) -> (email: SendEmailRequest)
    ensures
        email.to@ == req.email@,
        email.subject@ == OTP_SUBJECT@,
        email.template == EmailTemplate::Otp,
        email.data == otp_data(req.otp@, req.email@),
{
    SendEmailRequest {
        to: req.email.clone(),
        subject: OTP_SUBJECT.to_owned(),
        template: EmailTemplate::Otp,
        data: json_with_string_member(
            &json_single_member("otp", req.otp.as_str()),
            "email",
            req.email.as_str(),
        ),
    }
}

/// The message that carries the one-time password of a login.
pub fn otp_2fa_email(req: &SendOtp2FARequest) -> (email: SendEmailRequest)
    ensures
        email.to@ == req.email@,
        email.subject@ == OTP_2FA_SUBJECT@,
        email.template == EmailTemplate::Otp2FA,
        email.data == otp_data(req.otp@, req.email@),
{
    SendEmailRequest {
        to: req.email.clone(),
        subject: OTP_2FA_SUBJECT.to_owned(),
        template: EmailTemplate::Otp2FA,
        data: json_with_string_member(
            &json_single_member("otp", req.otp.as_str()),
            "email",
            req.email.as_str(),
        ),
    }
}

/// Queues the one-time-password message of a signup.
pub fn send_otp(state: &mut AppState, req: &SendOtpRequest) -> (response: EmailResponse)
    ensures
        response.success,
        response.job_id is Some,
        response.message@ == OTP_QUEUED@,
        queued_as(
            old(state).queue@,
            final(state).queue@,
            response.job_id.unwrap()@,
            req.email@,
            OTP_SUBJECT@,
            EmailTemplate::Otp,
            otp_data(req.otp@, req.email@),
        ),
{
    let email = otp_email(req);
    let job_id = state.queue.enqueue(email.to, email.subject, email.template, email.data);
    EmailResponse::queued(job_id, OTP_QUEUED)
}

/// Queues the one-time-password message of a login.
pub fn send_otp_2fa(state: &mut AppState, req: &SendOtp2FARequest) -> (response: EmailResponse)
    ensures
        response.success,
        response.job_id is Some,
        response.message@ == OTP_2FA_QUEUED@,
        queued_as(
            old(state).queue@,
            final(state).queue@,
            response.job_id.unwrap()@,
            req.email@,
            OTP_2FA_SUBJECT@,
            EmailTemplate::Otp2FA,
            otp_data(req.otp@, req.email@),
        ),
{
    let email = otp_2fa_email(req);
    let job_id = state.queue.enqueue(email.to, email.subject, email.template, email.data);
    EmailResponse::queued(job_id, OTP_2FA_QUEUED)
}

/// Queues a message of any kind.
pub fn send_email(state: &mut AppState, req: &SendEmailRequest) -> (response: EmailResponse)
    ensures
        response.success,
        response.job_id is Some,
        response.message@ == EMAIL_QUEUED@,
        queued_as(
            old(state).queue@,
            final(state).queue@,
            response.job_id.unwrap()@,
            req.to@,
            req.subject@,
            req.template,
            req.data,
        ),
{
    let job_id = state.queue.enqueue(
        req.to.clone(),
        req.subject.clone(),
        req.template,
        req.data.clone(),
    );
    EmailResponse::queued(job_id, EMAIL_QUEUED)
}

/// The queue statistics.
pub fn queue_stats(state: &AppState) -> (stats: QueueStats)
    ensures
        stats.pending == state.queue@.tally().pending,
        stats.processing == state.queue@.tally().processing,
        stats.sent == state.queue@.tally().sent,
        stats.failed == state.queue@.tally().failed,
{
    state.queue.stats()
}

/// The record of a job by id; `None` when there is no such job.
pub fn job_status(state: &AppState, job_id: &str) -> (job: Option<EmailJob>)
    ensures
        job_of(job) == state.queue@.record(job_id@),
{
    state.queue.get_job(job_id)
}

} // verus!
