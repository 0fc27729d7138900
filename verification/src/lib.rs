//! A verified email job queue: the job lifecycle, the retry policy, the
//! store the queue keeps its state in, and the decisions of the worker that
//! drives jobs from submission to delivery.

pub mod deps;
pub mod handlers;
pub mod laws;
pub mod models;
pub mod queue;
pub mod smtp;
pub mod state;
pub mod store;
pub mod templates;
pub mod worker;

pub use queue::EmailQueue;
pub use smtp::SmtpClient;
pub use templates::TemplateEngine;
pub use models::{
    EmailJob, EmailResponse, EmailStatus, EmailTemplate, QueueStats, SendEmailRequest,
    SendOtp2FARequest, SendOtpRequest, Timestamp,
};
