//! The email driver: who receives the message, how the relay is reached,
//! and what a delivery is recorded as.

use crate::config::SmtpConfig;
use crate::models::{clone_texts, opt_text, texts, EmailActionConfig};
use crate::text::{decimal, push_decimal};
use crate::watchdog::executor::{result_view, ActionResult};
use vstd::prelude::*;
use vstd::string::*;

verus! {

/// Seconds after which a send that has not returned is given up.
pub const SEND_TIMEOUT_SECONDS: u64 = 30;

/// The port on which the relay speaks TLS from the first byte.
pub const IMPLICIT_TLS_PORT: u16 = 465;

/// How the connection to the relay is secured.
#[derive(Clone, Copy, Debug, PartialEq, Eq, Structural)]
pub enum TlsMode {
    /// TLS from the first byte.
    Wrapper,
    /// A plain connection that must be upgraded by STARTTLS.
    Required,
}

/// The security of the connection that a port calls for: implicit TLS on
/// port 465, STARTTLS on every other.
pub fn tls_mode(port: u16) -> (r: TlsMode)
    ensures
        r == (if port == 465 {
            TlsMode::Wrapper
        } else {
            TlsMode::Required
        }),
{
    if port == IMPLICIT_TLS_PORT {
        TlsMode::Wrapper
    } else {
        TlsMode::Required
    }
}

/// The failure of a configuration that names nobody.
pub open spec fn no_recipients_message() -> Seq<char> {
    "No recipients specified"@
}

/// Who receives the message, each as BCC: the `bcc` list where it names
/// anyone, else the single `to`, else nobody, which is a failure.
pub open spec fn recipients_of(to: Option<Seq<char>>, bcc: Seq<Seq<char>>) -> Result<
    Seq<Seq<char>>,
    Seq<char>,
> {
    if bcc.len() > 0 {
        Ok(bcc)
    } else {
        match to {
            Some(single) => Ok(seq![single]),
            None => Err(no_recipients_message()),
        }
    }
}

/// Works out the recipients of `config`.
pub fn recipients(config: &EmailActionConfig) -> (r: Result<Vec<String>, String>)
    ensures
        match r {
            Ok(list) => recipients_of(opt_text(config.to), texts(config.bcc@))
                == Ok::<Seq<Seq<char>>, Seq<char>>(texts(list@)) && list@.len() >= 1,
            Err(message) => recipients_of(opt_text(config.to), texts(config.bcc@))
                == Err::<Seq<Seq<char>>, Seq<char>>(message@),
        },
{
    if config.bcc.len() > 0 {
        let list = clone_texts(&config.bcc);
        proof {
            assert(texts(list@).len() == list@.len());
            assert(texts(config.bcc@).len() == config.bcc@.len());
        }
        return Ok(list);
    }
    proof {
        assert(texts(config.bcc@).len() == config.bcc@.len());
    }
    match &config.to {
        Some(single) => {
            let mut list: Vec<String> = Vec::new();
            list.push(single.clone());
            proof {
                assert(texts(list@) =~= seq![single@]);
            }
            Ok(list)
        },
        None => Err(String::from_str("No recipients specified")),
    }
}

/// A message ready to be handed to the relay.
#[derive(Debug)]
pub struct Envelope {
    pub from: String,
    pub to: String,
    pub bcc: Vec<String>,
    pub subject: String,
    pub body: String,
}

/// A message as a mathematical value.
pub struct EnvelopeView {
    pub from: Seq<char>,
    pub to: Seq<char>,
    pub bcc: Seq<Seq<char>>,
    pub subject: Seq<char>,
    pub body: Seq<char>,
}

impl View for Envelope {
    type V = EnvelopeView;

    open spec fn view(&self) -> EnvelopeView {
        EnvelopeView {
            from: self.from@,
            to: self.to@,
            bcc: texts(self.bcc@),
            subject: self.subject@,
            body: self.body@,
        }
    }
}

/// The message that a configuration asks for: sent from the configured
/// sender and, visibly, to the sender alone; every recipient is addressed
/// as BCC, so that none learns of the others.
pub open spec fn envelope_of(
    to: Option<Seq<char>>,
    bcc: Seq<Seq<char>>,
    subject: Seq<char>,
    body: Seq<char>,
    sender: Seq<char>,
) -> Result<EnvelopeView, Seq<char>> {
    match recipients_of(to, bcc) {
        Ok(list) => Ok(EnvelopeView { from: sender, to: sender, bcc: list, subject, body }),
        Err(message) => Err(message),
    }
}

/// The view of a message or of the failure to make one.
pub open spec fn envelope_view(r: Result<Envelope, String>) -> Result<EnvelopeView, Seq<char>> {
    match r {
        Ok(e) => Ok(e@),
        Err(message) => Err(message@),
    }
}

/// Puts together the message that `config` asks for.
pub fn envelope(config: &EmailActionConfig, smtp: &SmtpConfig) -> (r: Result<Envelope, String>)
    ensures
        envelope_view(r) == envelope_of(
            opt_text(config.to),
            texts(config.bcc@),
            config.subject@,
            config.body@,
            smtp.from@,
        ),
{
    match recipients(config) {
        Ok(bcc) => Ok(
            Envelope {
                from: smtp.from.clone(),
                to: smtp.from.clone(),
                bcc,
                subject: config.subject.clone(),
                body: config.body.clone(),
            },
        ),
        Err(message) => Err(message),
    }
}

/// What a delivery to `count` recipients is recorded as.
pub open spec fn sent_text(count: int) -> Seq<char> {
    "Email sent to "@ + decimal(count) + " BCC recipients"@
}

/// The result of a delivery to `count` recipients: exit code 0, the count
/// on the output, nothing on the error stream.
pub fn sent(count: usize) -> (r: ActionResult)
    ensures
        result_view(r) == Ok::<(int, Seq<char>, Seq<char>), Seq<char>>(
            (0int, sent_text(count as int), Seq::<char>::empty()),
        ),
{
    let mut out = String::from_str("Email sent to ");
    push_decimal(&mut out, count as i128);
    out.append(" BCC recipients");
    Ok((0, out, String::new()))
}

/// Where a send went wrong.
#[derive(Clone, Copy, Debug, PartialEq, Eq, Structural)]
pub enum EmailFailure {
    /// The configuration could not be read.
    Config,
    /// The sender's address is not an address.
    FromAddress,
    /// The message could not be put together.
    Build,
    /// The TLS parameters could not be set up.
    TlsParameters,
    /// The transport to the relay could not be set up.
    Transport,
    /// The relay did not take the message.
    Send,
    /// The sending task ended without a result.
    Join,
}

impl EmailFailure {
    /// What the failure is called in the record.
    pub open spec fn label(self) -> Seq<char> {
        match self {
            EmailFailure::Config => "Failed to parse email config: "@,
            EmailFailure::FromAddress => "Invalid 'from' address: "@,
            EmailFailure::Build => "Failed to build email: "@,
            EmailFailure::TlsParameters => "Failed to create TLS parameters: "@,
            EmailFailure::Transport => "Failed to create SMTP transport: "@,
            EmailFailure::Send => "Failed to send email: "@,
            EmailFailure::Join => "Task join error: "@,
        }
    }

    /// The message recorded for the failure: what it is called, then the
    /// detail that came with it.
    pub fn describe(&self, detail: &str) -> (r: String)
        ensures
            r@ == self.label() + detail@,
    {
        let mut out = String::from_str(
            match self {
                EmailFailure::Config => "Failed to parse email config: ",
                EmailFailure::FromAddress => "Invalid 'from' address: ",
                EmailFailure::Build => "Failed to build email: ",
                EmailFailure::TlsParameters => "Failed to create TLS parameters: ",
                EmailFailure::Transport => "Failed to create SMTP transport: ",
                EmailFailure::Send => "Failed to send email: ",
                EmailFailure::Join => "Task join error: ",
            },
        );
        out.append(detail);
        out
    }
}

/// The message recorded for a recipient whose address is not an address.
pub fn invalid_recipient(recipient: &str, detail: &str) -> (r: String)
    ensures
        r@ == "Invalid BCC address '"@ + recipient@ + "': "@ + detail@,
{
    let mut out = String::from_str("Invalid BCC address '");
    out.append(recipient);
    out.append("': ");
    out.append(detail);
    out
}

/// The message recorded for a send that did not return in time.
pub fn timed_out() -> (r: String)
    ensures
        r@ == "Email send timeout (30s)"@,
{
    String::from_str("Email send timeout (30s)")
}

} // verus!
