//! The mail transport's client, as far as it decides anything: how the
//! connection is secured, who the sender is, and what is handed over for a
//! message. Opening the connection and sending is the caller's part.

use vstd::prelude::*;
use vstd::string::StringExecFns;

use crate::deps::{is_mailbox, parses_as_mailbox};

verus! {

/// How the connection to the mail server is secured.
#[derive(Clone, Copy, Debug, PartialEq, Eq, Structural)]
pub enum TlsMode {
    /// Not at all. For local testing only.
    Plain,
    /// The connection starts in the clear and must be upgraded to TLS
    /// (STARTTLS, usually port 587).
    StartTls,
    /// TLS from the first byte (SMTPS, usually port 465).
    Implicit,
}

/// The seconds after which an exchange with the mail server is given up.
pub const SMTP_TIMEOUT_SECS: u64 = 30;

/// The mode for the two switches of the configuration: without `secure`
/// nothing is secured, whatever `implicit_tls` says.
pub open spec fn tls_mode_for(secure: bool, implicit_tls: bool) -> TlsMode {
    if !secure {
        TlsMode::Plain
    } else if implicit_tls {
        TlsMode::Implicit
    } else {
        TlsMode::StartTls
    }
}

/// The settings of the SMTP client.
pub struct SmtpClient {
    pub host: String,
    pub port: u16,
    pub username: String,
    pub password: String,
    pub tls: TlsMode,
    pub accept_invalid_certs: bool,
    pub timeout_secs: u64,
    pub from_email: String,
    pub from_name: String,
}

/// A message as it is handed to the mail transport: an HTML body with its
/// sender, recipient and subject.
#[derive(Debug)]
pub struct OutgoingEmail {
    pub from: String,
    pub to: String,
    pub subject: String,
    pub html_body: String,
}

impl SmtpClient {
    /// The sender of every message: the display name, then the address in
    /// angle brackets.
    pub open spec fn sender_text(self) -> Seq<char> {
        self.from_name@ + " <"@ + self.from_email@ + ">"@
    }

    /// The settings of a client.
    ///
    /// * `host` - SMTP server hostname
    /// * `port` - SMTP server port (587 for STARTTLS, 465 for implicit TLS)
    /// * `username` - SMTP username, which is also the sender's address
    /// * `password` - SMTP password
    /// * `secure` - use TLS
    /// * `accept_invalid_certs` - skip certificate verification
    /// * `implicit_tls` - TLS from the start in place of STARTTLS
    pub fn new(
        host: &str,
        port: u16,
        username: &str,
        password: &str,
        secure: bool,
        accept_invalid_certs: bool,
        implicit_tls: bool,
    ) -> (client: SmtpClient)
        ensures
            client.host@ == host@,
            client.port == port,
            client.username@ == username@,
            client.password@ == password@,
            client.tls == tls_mode_for(secure, implicit_tls),
            client.accept_invalid_certs == accept_invalid_certs,
            client.timeout_secs == SMTP_TIMEOUT_SECS,
            client.from_email@ == username@,
            client.from_name@ == "KillCode"@,
    {
        let tls = if !secure {
            TlsMode::Plain
        } else if implicit_tls {
            TlsMode::Implicit
        } else {
            TlsMode::StartTls
        };
        SmtpClient {
            host: host.to_owned(),
            port,
            username: username.to_owned(),
            password: password.to_owned(),
            tls,
            accept_invalid_certs,
            timeout_secs: SMTP_TIMEOUT_SECS,
            from_email: username.to_owned(),
            from_name: "KillCode".to_owned(),
        }
    }

    /// The sender of every message.
    pub fn sender(&self) -> (from: String)
        ensures
            from@ == self.sender_text(),
    {
        let mut from = self.from_name.clone();
        from.append(" <");
        from.append(self.from_email.as_str());
        from.append(">");
        from
    }

    /// The message to hand to the mail transport for a rendered body, if
    /// the transport can take it: `None` when the sender or the recipient is
    /// not a mailbox.
    pub fn compose_checked(&self, to: &str, subject: &str, html_body: &str) -> (email: Option<
        OutgoingEmail,
    >)
        ensures
            email is Some <==> is_mailbox(self.sender_text()) && is_mailbox(to@),
            email matches Some(e) ==> e.from@ == self.sender_text() && e.to@ == to@ && e.subject@
                == subject@ && e.html_body@ == html_body@,
    {
        let email = self.compose(to, subject, html_body);
        if parses_as_mailbox(email.from.as_str()) && parses_as_mailbox(to) {
            Some(email)
        } else {
            None
        }
    }

    /// The message for a rendered body, whatever the addresses are.
    pub fn compose(&self, to: &str, subject: &str, html_body: &str) -> (email: OutgoingEmail)
        ensures
            email.from@ == self.sender_text(),
            email.to@ == to@,
            email.subject@ == subject@,
            email.html_body@ == html_body@,
    {
        OutgoingEmail {
            from: self.sender(),
            to: to.to_owned(),
            subject: subject.to_owned(),
            html_body: html_body.to_owned(),
        }
    }
}

} // verus!
